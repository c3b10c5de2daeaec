use vstd::prelude::*;

pub mod text;
pub mod errors;
pub mod amounts;
pub mod approval;
pub mod urls;
pub mod browser;
pub mod dapp_lists;
pub mod u256;
pub mod hexcodec;
pub mod send_form;
pub mod pending;
pub mod history;
pub mod ipc;
pub mod rpc;
pub mod dashboard;
pub mod session;
pub mod app_state;
pub mod forms;
pub mod flows;

verus! {
}
