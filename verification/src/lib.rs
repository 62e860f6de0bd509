//! A broadcast/notification core — a registry of subscribers that can be
//! joined and left at any time, a fan-out delivery path with per-subscriber
//! outcome reporting, and a bounded-mailbox delivery alternative that detects
//! and prunes disconnected consumers — together with a collection of smaller
//! verified components (commands, observers, strategies, builders and the
//! like) that share its style of exact contracts.

pub mod abstract_method;
pub mod adapter;
pub mod broadcast;
pub mod builder;
pub mod chain;
pub mod command;
pub mod composite;
pub mod enum_poly;
pub mod extensions;
pub mod facade;
pub mod factory;
pub mod flyweight;
pub mod listener;
pub mod registry;
pub mod sampling;
pub mod singleton;
pub mod strategy;
pub mod text;
pub mod typestate;
pub mod mailbox;
pub mod matching;
pub mod mediator;
pub mod message;
pub mod newtype;
pub mod message_passing;
pub mod observer;
pub mod prototype;
pub mod raii;
pub mod proxy;
