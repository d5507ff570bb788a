//! Request rules, identifier construction and quota bookkeeping of the
//! central management service, with their contracts.

pub mod text;
pub mod hexcode;
pub mod response;
pub mod entropy;
pub mod statistics;
pub mod json;
pub mod get_quota_infor;
pub mod dcds_regist_manage;
pub mod config_command;
