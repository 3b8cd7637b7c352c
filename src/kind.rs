use crate::error::IdtError;
use crate::text::{chars_of, lower_of, push_str, same_text, string_of_chars, to_lower};
use vstd::prelude::*;

verus! {

/// The recognised identifier formats.
#[derive(Debug, Clone, Copy, PartialEq, Eq, Hash, Structural)]
pub enum IdKind {
    Uuid,
    UuidV1,
    UuidV3,
    UuidV4,
    UuidV5,
    UuidV6,
    UuidV7,
    UuidNil,
    UuidMax,
    Ulid,
    NanoId,
    Ksuid,
    Snowflake,
    ObjectId,
    TypeId,
    Xid,
    Cuid,
    Cuid2,
    Tsid,
}

/// The short name of a kind.
pub open spec fn kind_name(k: IdKind) -> Seq<char> {
    match k {
        IdKind::Uuid => "uuid"@,
        IdKind::UuidV1 => "uuidv1"@,
        IdKind::UuidV3 => "uuidv3"@,
        IdKind::UuidV4 => "uuidv4"@,
        IdKind::UuidV5 => "uuidv5"@,
        IdKind::UuidV6 => "uuidv6"@,
        IdKind::UuidV7 => "uuidv7"@,
        IdKind::UuidNil => "uuid-nil"@,
        IdKind::UuidMax => "uuid-max"@,
        IdKind::Ulid => "ulid"@,
        IdKind::NanoId => "nanoid"@,
        IdKind::Ksuid => "ksuid"@,
        IdKind::Snowflake => "snowflake"@,
        IdKind::ObjectId => "objectid"@,
        IdKind::TypeId => "typeid"@,
        IdKind::Xid => "xid"@,
        IdKind::Cuid => "cuid"@,
        IdKind::Cuid2 => "cuid2"@,
        IdKind::Tsid => "tsid"@,
    }
}

/// The one-line description of a kind.
pub open spec fn kind_description(k: IdKind) -> Seq<char> {
    match k {
        IdKind::Uuid => "UUID (any version)"@,
        IdKind::UuidV1 => "UUID v1 (timestamp + MAC address)"@,
        IdKind::UuidV3 => "UUID v3 (MD5 namespace hash)"@,
        IdKind::UuidV4 => "UUID v4 (random)"@,
        IdKind::UuidV5 => "UUID v5 (SHA-1 namespace hash)"@,
        IdKind::UuidV6 => "UUID v6 (reordered timestamp)"@,
        IdKind::UuidV7 => "UUID v7 (Unix timestamp + random)"@,
        IdKind::UuidNil => "Nil UUID (all zeros)"@,
        IdKind::UuidMax => "Max UUID (all ones)"@,
        IdKind::Ulid => "ULID (Universally Unique Lexicographically Sortable Identifier)"@,
        IdKind::NanoId => "NanoID (compact URL-friendly unique ID)"@,
        IdKind::Ksuid => "KSUID (K-Sortable Unique Identifier)"@,
        IdKind::Snowflake => "Snowflake ID (Twitter-style distributed ID)"@,
        IdKind::ObjectId => "MongoDB ObjectId"@,
        IdKind::TypeId => "TypeID (type-prefixed, sortable ID)"@,
        IdKind::Xid => "Xid (globally unique, sortable ID)"@,
        IdKind::Cuid => "CUID (collision-resistant unique identifier)"@,
        IdKind::Cuid2 => "CUID2 (secure collision-resistant ID)"@,
        IdKind::Tsid => "TSID (time-sorted unique identifier)"@,
    }
}

/// Whether identifiers of a kind embed a timestamp.
pub open spec fn kind_has_timestamp(k: IdKind) -> bool {
    k == IdKind::UuidV1 || k == IdKind::UuidV6 || k == IdKind::UuidV7 || k == IdKind::Ulid || k == IdKind::Ksuid || k == IdKind::Snowflake || k == IdKind::ObjectId || k == IdKind::TypeId || k == IdKind::Xid || k == IdKind::Cuid || k == IdKind::Tsid
}

/// Whether lexicographic order of a kind matches creation order.
pub open spec fn kind_is_sortable(k: IdKind) -> bool {
    k == IdKind::UuidV6 || k == IdKind::UuidV7 || k == IdKind::Ulid || k == IdKind::Ksuid || k == IdKind::Snowflake || k == IdKind::TypeId || k == IdKind::Xid || k == IdKind::Tsid
}

/// The nominal size of a kind in bits.
pub open spec fn kind_bit_length(k: IdKind) -> usize {
    match k {
        IdKind::Uuid => 128,
        IdKind::UuidV1 => 128,
        IdKind::UuidV3 => 128,
        IdKind::UuidV4 => 128,
        IdKind::UuidV5 => 128,
        IdKind::UuidV6 => 128,
        IdKind::UuidV7 => 128,
        IdKind::UuidNil => 128,
        IdKind::UuidMax => 128,
        IdKind::Ulid => 128,
        IdKind::NanoId => 126,
        IdKind::Ksuid => 160,
        IdKind::Snowflake => 64,
        IdKind::ObjectId => 96,
        IdKind::TypeId => 128,
        IdKind::Xid => 96,
        IdKind::Cuid => 128,
        IdKind::Cuid2 => 128,
        IdKind::Tsid => 64,
    }
}

/// Every kind, in declaration order.
pub open spec fn all_kinds() -> Seq<IdKind> {
    seq![IdKind::Uuid, IdKind::UuidV1, IdKind::UuidV3, IdKind::UuidV4, IdKind::UuidV5, IdKind::UuidV6, IdKind::UuidV7, IdKind::UuidNil, IdKind::UuidMax, IdKind::Ulid, IdKind::NanoId, IdKind::Ksuid, IdKind::Snowflake, IdKind::ObjectId, IdKind::TypeId, IdKind::Xid, IdKind::Cuid, IdKind::Cuid2, IdKind::Tsid]
}

/// The kinds that the command line offers to generate.
pub open spec fn generatable_kinds() -> Seq<IdKind> {
    seq![IdKind::Uuid, IdKind::UuidV1, IdKind::UuidV4, IdKind::UuidV6, IdKind::UuidV7, IdKind::UuidNil, IdKind::UuidMax, IdKind::Ulid, IdKind::NanoId, IdKind::Snowflake]
}

/// The kind that a (lowercased) name or alias selects.
pub open spec fn kind_named(t: Seq<char>) -> Option<IdKind> {
    if t == "uuid"@ {
        Some(IdKind::Uuid)
    } else if t == "uuidv1"@ || t == "uuid-v1"@ || t == "uuid1"@ {
        Some(IdKind::UuidV1)
    } else if t == "uuidv3"@ || t == "uuid-v3"@ || t == "uuid3"@ {
        Some(IdKind::UuidV3)
    } else if t == "uuidv4"@ || t == "uuid-v4"@ || t == "uuid4"@ {
        Some(IdKind::UuidV4)
    } else if t == "uuidv5"@ || t == "uuid-v5"@ || t == "uuid5"@ {
        Some(IdKind::UuidV5)
    } else if t == "uuidv6"@ || t == "uuid-v6"@ || t == "uuid6"@ {
        Some(IdKind::UuidV6)
    } else if t == "uuidv7"@ || t == "uuid-v7"@ || t == "uuid7"@ {
        Some(IdKind::UuidV7)
    } else if t == "uuid-nil"@ || t == "uuidnil"@ || t == "nil"@ {
        Some(IdKind::UuidNil)
    } else if t == "uuid-max"@ || t == "uuidmax"@ || t == "max"@ {
        Some(IdKind::UuidMax)
    } else if t == "ulid"@ {
        Some(IdKind::Ulid)
    } else if t == "nanoid"@ || t == "nano"@ {
        Some(IdKind::NanoId)
    } else if t == "ksuid"@ {
        Some(IdKind::Ksuid)
    } else if t == "snowflake"@ || t == "snow"@ {
        Some(IdKind::Snowflake)
    } else if t == "objectid"@ || t == "oid"@ || t == "mongoid"@ {
        Some(IdKind::ObjectId)
    } else if t == "typeid"@ {
        Some(IdKind::TypeId)
    } else if t == "xid"@ {
        Some(IdKind::Xid)
    } else if t == "cuid"@ {
        Some(IdKind::Cuid)
    } else if t == "cuid2"@ {
        Some(IdKind::Cuid2)
    } else if t == "tsid"@ {
        Some(IdKind::Tsid)
    } else {
        None
    }
}

impl IdKind {
    pub fn name(&self) -> (r: &'static str)
        ensures
            r@ == kind_name(*self),
    {
        match self {
            IdKind::Uuid => "uuid",
            IdKind::UuidV1 => "uuidv1",
            IdKind::UuidV3 => "uuidv3",
            IdKind::UuidV4 => "uuidv4",
            IdKind::UuidV5 => "uuidv5",
            IdKind::UuidV6 => "uuidv6",
            IdKind::UuidV7 => "uuidv7",
            IdKind::UuidNil => "uuid-nil",
            IdKind::UuidMax => "uuid-max",
            IdKind::Ulid => "ulid",
            IdKind::NanoId => "nanoid",
            IdKind::Ksuid => "ksuid",
            IdKind::Snowflake => "snowflake",
            IdKind::ObjectId => "objectid",
            IdKind::TypeId => "typeid",
            IdKind::Xid => "xid",
            IdKind::Cuid => "cuid",
            IdKind::Cuid2 => "cuid2",
            IdKind::Tsid => "tsid",
        }
    }

    pub fn description(&self) -> (r: &'static str)
        ensures
            r@ == kind_description(*self),
    {
        match self {
            IdKind::Uuid => "UUID (any version)",
            IdKind::UuidV1 => "UUID v1 (timestamp + MAC address)",
            IdKind::UuidV3 => "UUID v3 (MD5 namespace hash)",
            IdKind::UuidV4 => "UUID v4 (random)",
            IdKind::UuidV5 => "UUID v5 (SHA-1 namespace hash)",
            IdKind::UuidV6 => "UUID v6 (reordered timestamp)",
            IdKind::UuidV7 => "UUID v7 (Unix timestamp + random)",
            IdKind::UuidNil => "Nil UUID (all zeros)",
            IdKind::UuidMax => "Max UUID (all ones)",
            IdKind::Ulid => "ULID (Universally Unique Lexicographically Sortable Identifier)",
            IdKind::NanoId => "NanoID (compact URL-friendly unique ID)",
            IdKind::Ksuid => "KSUID (K-Sortable Unique Identifier)",
            IdKind::Snowflake => "Snowflake ID (Twitter-style distributed ID)",
            IdKind::ObjectId => "MongoDB ObjectId",
            IdKind::TypeId => "TypeID (type-prefixed, sortable ID)",
            IdKind::Xid => "Xid (globally unique, sortable ID)",
            IdKind::Cuid => "CUID (collision-resistant unique identifier)",
            IdKind::Cuid2 => "CUID2 (secure collision-resistant ID)",
            IdKind::Tsid => "TSID (time-sorted unique identifier)",
        }
    }

    pub fn has_timestamp(&self) -> (r: bool)
        ensures
            r == kind_has_timestamp(*self),
    {
        match self {
            IdKind::UuidV1 | IdKind::UuidV6 | IdKind::UuidV7 | IdKind::Ulid | IdKind::Ksuid | IdKind::Snowflake | IdKind::ObjectId | IdKind::TypeId | IdKind::Xid | IdKind::Cuid | IdKind::Tsid => true,
            _ => false,
        }
    }

    pub fn is_sortable(&self) -> (r: bool)
        ensures
            r == kind_is_sortable(*self),
    {
        match self {
            IdKind::UuidV6 | IdKind::UuidV7 | IdKind::Ulid | IdKind::Ksuid | IdKind::Snowflake | IdKind::TypeId | IdKind::Xid | IdKind::Tsid => true,
            _ => false,
        }
    }

    pub fn bit_length(&self) -> (r: usize)
        ensures
            r == kind_bit_length(*self),
    {
        match self {
            IdKind::Uuid => 128,
            IdKind::UuidV1 => 128,
            IdKind::UuidV3 => 128,
            IdKind::UuidV4 => 128,
            IdKind::UuidV5 => 128,
            IdKind::UuidV6 => 128,
            IdKind::UuidV7 => 128,
            IdKind::UuidNil => 128,
            IdKind::UuidMax => 128,
            IdKind::Ulid => 128,
            IdKind::NanoId => 126,
            IdKind::Ksuid => 160,
            IdKind::Snowflake => 64,
            IdKind::ObjectId => 96,
            IdKind::TypeId => 128,
            IdKind::Xid => 96,
            IdKind::Cuid => 128,
            IdKind::Cuid2 => 128,
            IdKind::Tsid => 64,
        }
    }

    pub fn all() -> (r: Vec<IdKind>)
        ensures
            r@ == all_kinds(),
    {
        let r = vec![IdKind::Uuid, IdKind::UuidV1, IdKind::UuidV3, IdKind::UuidV4, IdKind::UuidV5, IdKind::UuidV6, IdKind::UuidV7, IdKind::UuidNil, IdKind::UuidMax, IdKind::Ulid, IdKind::NanoId, IdKind::Ksuid, IdKind::Snowflake, IdKind::ObjectId, IdKind::TypeId, IdKind::Xid, IdKind::Cuid, IdKind::Cuid2, IdKind::Tsid];
        assert(r@ =~= all_kinds());
        r
    }

    pub fn generatable() -> (r: Vec<IdKind>)
        ensures
            r@ == generatable_kinds(),
    {
        let r = vec![IdKind::Uuid, IdKind::UuidV1, IdKind::UuidV4, IdKind::UuidV6, IdKind::UuidV7, IdKind::UuidNil, IdKind::UuidMax, IdKind::Ulid, IdKind::NanoId, IdKind::Snowflake];
        assert(r@ =~= generatable_kinds());
        r
    }

    /// Selects a kind by name or alias, case-insensitively.
    pub fn parse_name(s: &str) -> (r: crate::error::Result<IdKind>)
        ensures
            kind_named(lower_of(s@)) matches Some(k) ==> r == Ok::<IdKind, IdtError>(k),
            kind_named(lower_of(s@)) is None ==> (r matches Err(e) && e is UnknownType),
    {
        let low = to_lower(s);
        let t = chars_of(low.as_str());
        if same_text(&t, "uuid") {
            Ok(IdKind::Uuid)
        } else if same_text(&t, "uuidv1") || same_text(&t, "uuid-v1") || same_text(&t, "uuid1") {
            Ok(IdKind::UuidV1)
        } else if same_text(&t, "uuidv3") || same_text(&t, "uuid-v3") || same_text(&t, "uuid3") {
            Ok(IdKind::UuidV3)
        } else if same_text(&t, "uuidv4") || same_text(&t, "uuid-v4") || same_text(&t, "uuid4") {
            Ok(IdKind::UuidV4)
        } else if same_text(&t, "uuidv5") || same_text(&t, "uuid-v5") || same_text(&t, "uuid5") {
            Ok(IdKind::UuidV5)
        } else if same_text(&t, "uuidv6") || same_text(&t, "uuid-v6") || same_text(&t, "uuid6") {
            Ok(IdKind::UuidV6)
        } else if same_text(&t, "uuidv7") || same_text(&t, "uuid-v7") || same_text(&t, "uuid7") {
            Ok(IdKind::UuidV7)
        } else if same_text(&t, "uuid-nil") || same_text(&t, "uuidnil") || same_text(&t, "nil") {
            Ok(IdKind::UuidNil)
        } else if same_text(&t, "uuid-max") || same_text(&t, "uuidmax") || same_text(&t, "max") {
            Ok(IdKind::UuidMax)
        } else if same_text(&t, "ulid") {
            Ok(IdKind::Ulid)
        } else if same_text(&t, "nanoid") || same_text(&t, "nano") {
            Ok(IdKind::NanoId)
        } else if same_text(&t, "ksuid") {
            Ok(IdKind::Ksuid)
        } else if same_text(&t, "snowflake") || same_text(&t, "snow") {
            Ok(IdKind::Snowflake)
        } else if same_text(&t, "objectid") || same_text(&t, "oid") || same_text(&t, "mongoid") {
            Ok(IdKind::ObjectId)
        } else if same_text(&t, "typeid") {
            Ok(IdKind::TypeId)
        } else if same_text(&t, "xid") {
            Ok(IdKind::Xid)
        } else if same_text(&t, "cuid") {
            Ok(IdKind::Cuid)
        } else if same_text(&t, "cuid2") {
            Ok(IdKind::Cuid2)
        } else if same_text(&t, "tsid") {
            Ok(IdKind::Tsid)
        } else {
            let mut m: Vec<char> = Vec::new();
            push_str(&mut m, s);
            Err(IdtError::UnknownType(string_of_chars(&m)))
        }
    }
}

impl std::str::FromStr for IdKind {
    type Err = IdtError;

    fn from_str(s: &str) -> (r: core::result::Result<IdKind, IdtError>) {
        IdKind::parse_name(s)
    }
}

} // verus!
