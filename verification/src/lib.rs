//! A moderated anonymous relay: senders submit free-text messages, a
//! registered moderator approves or rejects each one, and approved messages
//! are published to the moderator's public destination without revealing the
//! sender. The library holds the verified core: the chat registry with its
//! failure-counting eviction policy, the moderation state machine, and the
//! menu/command logic. Transport (how bytes reach the messaging platform and
//! the backing store) lives outside the library.

pub mod commands;
pub mod registry;
pub mod relay;
