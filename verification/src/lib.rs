//! Verified encoding and decoding of the XFRM (IPsec) netlink message
//! structures: every fixed-layout structure has a byte image, a decoder
//! and an encoder, and each decoder gives back what the encoder wrote.

pub mod wire;
pub mod netlink_ints;
pub mod constants;
pub mod address;
pub mod async_event_id;
pub mod id;
pub mod lifetime;
pub mod monitor;
pub mod nla;
pub mod nlas;
pub mod policy;
pub mod selector;
pub mod state;
pub mod stats;
pub mod user_acquire;
pub mod user_expire;
pub mod user_mapping;
pub mod user_polexpire;
pub mod user_policy_default;
pub mod user_policy_id;
pub mod user_policy_info;
pub mod user_policy_type;
pub mod user_report;
pub mod user_sa_id;
pub mod user_sa_info;
pub mod user_spi_info;

pub use self::address::{XFRM_ADDRESS_LEN, Address, IpAddress, AddressBuffer};
pub use self::async_event_id::{AsyncEventId, XFRM_ASYNC_EVENT_ID_LEN, AsyncEventIdBuffer};
pub use self::constants::{AF_INET, AF_INET6, IPPROTO_COMP, XFRM_INF, XFRMA_SEC_CTX, XFRM_SC_ALG_SELINUX, XFRM_SC_DOI_LSM};
pub use self::id::{Id, XFRM_ID_LEN, IdBuffer};
pub use self::lifetime::{LifetimeConfig, XFRM_LIFETIME_CONFIG_LEN, LifetimeConfigBuffer, Lifetime, XFRM_LIFETIME_LEN, LifetimeBuffer};
pub use self::monitor::acquire::message::AcquireMessage;
pub use self::monitor::expire::message::ExpireMessage;
pub use self::monitor::get_async_event::message::GetAsyncEventMessage;
pub use self::monitor::mapping::message::MappingMessage;
pub use self::monitor::migrate::message::MigrateMessage;
pub use self::monitor::new_async_event::message::NewAsyncEventMessage;
pub use self::monitor::polexpire::message::PolicyExpireMessage;
pub use self::monitor::report::message::ReportMessage;
pub use self::nla::{NLA_HEADER_SIZE, NLA_MAX_VALUE_LEN, Nla};
pub use self::nlas::address_filter::{AddressFilter, XFRM_ADDRESS_FILTER_LEN, AddressFilterBuffer};
pub use self::nlas::alg::{XFRM_ALG_NAME_LEN, Alg, XFRM_ALG_HEADER_LEN, AlgBuffer};
pub use self::nlas::encap_tmpl::{EncapTmpl, XFRM_ENCAP_TMPL_LEN, EncapTmplBuffer};
pub use self::nlas::mark::{Mark, XFRM_MARK_LEN, MarkBuffer};
pub use self::nlas::replay::{Replay, XFRM_REPLAY_LEN, ReplayBuffer};
pub use self::nlas::replay_esn::{XFRM_REPLAY_ESN_LEN, ReplayEsn, ReplayEsnBuffer};
pub use self::nlas::security_ctx::{SecurityCtx, XFRM_SEC_CTX_HEADER_LEN, XFRM_SEC_CTX_MAX_STR_LEN, SecurityCtxBuffer};
pub use self::nlas::user_kmaddress::{UserKmAddress, XFRM_USER_KMADDRESS_LEN, UserKmAddressBuffer};
pub use self::nlas::user_migrate::{UserMigrate, XFRM_USER_MIGRATE_LEN, UserMigrateBuffer};
pub use self::nlas::user_offload::{UserOffloadDev, XFRM_USER_OFFLOAD_DEV_LEN, UserOffloadDevBuffer};
pub use self::nlas::user_template::{UserTemplate, XFRM_USER_TEMPLATE_LEN, UserTemplateBuffer};
pub use self::policy::default::message::DefaultMessage;
pub use self::policy::spdinfo::message::{NewSpdInfoMessage, GetSpdInfoMessage};
pub use self::policy::spdinfo::nlas::spd_info::{SpdInfo, XFRM_SPD_INFO_LEN, SpdInfoBuffer, SpdHInfo, XFRM_SPD_HINFO_LEN, SpdHInfoBuffer, SpdHThresh, XFRM_SPD_HTHRESH_LEN, SpdHThreshBuffer};
pub use self::selector::{Selector, XFRM_SELECTOR_LEN, SelectorBuffer};
pub use self::state::allocspi::message::AllocSpiMessage;
pub use self::state::delget::message::{DelGetMessage, GetDumpMessage};
pub use self::state::sadinfo::message::{NewSadInfoMessage, GetSadInfoMessage};
pub use self::state::sadinfo::nlas::sad_info::{SadHInfo, XFRM_SAD_HINFO_LEN, SadHInfoBuffer};
pub use self::stats::{Stats, XFRM_STATS_LEN, StatsBuffer};
pub use self::user_acquire::{UserAcquire, XFRM_USER_ACQUIRE_LEN, UserAcquireBuffer};
pub use self::user_expire::{UserExpire, XFRM_USER_EXPIRE_LEN, UserExpireBuffer};
pub use self::user_mapping::{UserMapping, XFRM_USER_MAPPING_LEN, UserMappingBuffer};
pub use self::user_polexpire::{UserPolicyExpire, XFRM_USER_POLICY_EXPIRE_LEN, UserPolicyExpireBuffer};
pub use self::user_policy_default::{UserPolicyDefault, XFRM_USER_POLICY_DEFAULT_LEN, UserPolicyDefaultBuffer};
pub use self::user_policy_id::{UserPolicyId, XFRM_USER_POLICY_ID_LEN, UserPolicyIdBuffer};
pub use self::user_policy_info::{UserPolicyInfo, XFRM_USER_POLICY_INFO_LEN, UserPolicyInfoBuffer};
pub use self::user_policy_type::{UserPolicyType, XFRM_USER_POLICY_TYPE_LEN, UserPolicyTypeBuffer};
pub use self::user_report::{UserReport, XFRM_USER_REPORT_LEN, UserReportBuffer};
pub use self::user_sa_id::{UserSaId, XFRM_USER_SA_ID_LEN, UserSaIdBuffer};
pub use self::user_sa_info::{UserSaInfo, XFRM_USER_SA_INFO_LEN, UserSaInfoBuffer};
pub use self::user_spi_info::{UserSpiInfo, XFRM_USER_SPI_INFO_LEN, UserSpiInfoBuffer};
pub use self::wire::ParseError;
