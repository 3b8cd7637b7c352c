//! Identification, decoding, validation, re-encoding and generation of
//! compact identifiers: UUID, ULID, NanoID, Snowflake, ObjectId, KSUID, Xid,
//! TSID, TypeID, CUID and CUID2.

pub mod crockford;
pub mod cuid2_id;
pub mod cuid_id;
pub mod detection;
pub mod digits;
pub mod encoding;
pub mod error;
pub mod id;
pub mod kind;
pub mod ksuid_id;
pub mod nanoid_id;
pub mod objectid_id;
pub mod random;
pub mod registry;
pub mod snowflake_id;
pub mod text;
pub mod tsid_id;
pub mod typeid_id;
pub mod ulid_id;
pub mod uuid_id;
pub mod xid_id;

pub use cuid2_id::{is_cuid2, Cuid2Generator, ParsedCuid2};
pub use cuid_id::{is_cuid, CuidGenerator, ParsedCuid};
pub use detection::{detect_id_type, DetectionResult};
pub use encoding::EncodingFormat;
pub use error::{IdtError, Result};
pub use id::{ComponentValue, IdEncodings, InspectionResult, Timestamp, ValidationResult};
pub use kind::IdKind;
pub use ksuid_id::{is_ksuid, KsuidGenerator, ParsedKsuid};
pub use nanoid_id::{is_nanoid, NanoIdGenerator, ParsedNanoId};
pub use objectid_id::{is_objectid, ObjectIdGenerator, ParsedObjectId};
pub use registry::{create_generator, parse_id, validate_text, Generator, IdGenerator, ParsedIdentifier};
pub use snowflake_id::{is_snowflake, ParsedSnowflake, SnowflakeGenerator, DISCORD_EPOCH, TWITTER_EPOCH};
pub use tsid_id::{is_tsid, ParsedTsid, TsidGenerator};
pub use typeid_id::{is_typeid, ParsedTypeId, TypeIdGenerator};
pub use ulid_id::{is_ulid, ParsedUlid, UlidGenerator};
pub use uuid_id::{is_uuid, ParsedUuid, UuidGenerator};
pub use xid_id::{is_xid, ParsedXid, XidGenerator};
