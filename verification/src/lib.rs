//! Verified core of a scripted login-and-scrape workflow against the Leanpub
//! site: the decision logic of each step (token polling, credential gating,
//! outcome verification, link extraction) as pure functions over plain values,
//! so that the browser-driving shell only performs actions and feeds results
//! back in.

pub mod extract;
pub mod href;
pub mod outcome;
pub mod poll;
pub mod text;
pub mod workflow;
