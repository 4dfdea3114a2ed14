//! The registry of protocol var ids.
//!
//! Every field inside a packet is tagged with one of these `u16` constants.
//! The numbers are stable on the wire: new ids are appended, never
//! renumbered. Ids outside this registry still travel through the codec
//! unchanged; typed accessors simply never match them.

use vstd::prelude::*;

verus! {

pub const AFK_STATUS: u16 = 1;
pub const ATTRIB_ALLOW_TOURISTS: u16 = 2;
pub const BETA_USER: u16 = 3;
pub const BROWSER_BUILD: u16 = 4;
pub const BROWSER_VERSION: u16 = 5;
pub const CAV_ENABLED: u16 = 6;
pub const CAV_TEMPLATE: u16 = 7;
pub const CITIZEN_BOT_LIMIT: u16 = 8;
pub const CITIZEN_COMMENT: u16 = 9;
pub const CITIZEN_EMAIL: u16 = 10;
pub const CITIZEN_ENABLED: u16 = 11;
pub const CITIZEN_EXPIRATION: u16 = 12;
pub const CITIZEN_IMMIGRATION: u16 = 13;
pub const CITIZEN_LAST_LOGIN: u16 = 14;
pub const CITIZEN_NAME: u16 = 15;
pub const CITIZEN_NUMBER: u16 = 16;
pub const CITIZEN_PASSWORD: u16 = 17;
pub const CITIZEN_PRIVACY: u16 = 18;
pub const CITIZEN_PRIVILEGE_PASSWORD: u16 = 19;
pub const CITIZEN_TOTAL_TIME: u16 = 20;
pub const CITIZEN_URL: u16 = 21;
pub const CONTACT_STATUS: u16 = 22;
pub const EMAIL: u16 = 23;
pub const IDENTIFY_USER_IP: u16 = 24;
pub const LOGIN_USERNAME: u16 = 25;
pub const PASSWORD: u16 = 26;
pub const PRIVILEGE_PASSWORD: u16 = 27;
pub const PRIVILEGE_USER_ID: u16 = 28;
pub const REASON_CODE: u16 = 29;
pub const SESSION_ID: u16 = 30;
pub const TRIAL_USER: u16 = 31;
pub const UNIVERSE_LICENSE: u16 = 32;
pub const USER_LIST_3DAY_UNKNOWN: u16 = 33;
pub const USER_LIST_ADDRESS: u16 = 34;
pub const USER_LIST_CITIZEN_ID: u16 = 35;
pub const USER_LIST_ID: u16 = 36;
pub const USER_LIST_MORE: u16 = 37;
pub const USER_LIST_NAME: u16 = 38;
pub const USER_LIST_PRIVILEGE_ID: u16 = 39;
pub const USER_LIST_STATE: u16 = 40;
pub const USER_LIST_WORLD_NAME: u16 = 41;
pub const USER_TYPE: u16 = 42;
pub const WORLD_NAME: u16 = 43;
pub const WORLD_STATUS: u16 = 44;

} // verus!
