//! Benchmark dimensions: storage backends, topologies, telemetry modes,
//! hardware profiles and cluster presets, with their report slugs and the
//! parsers that read them back.

use vstd::prelude::*;

use crate::text::{
    ascii_lower_seq, lemma_ascii_lower_unchanged, owned, parse_uint, parse_uint_spec, str_eq,
    to_ascii_lowercase,
};
use crate::types::{kind_name, LogBackendKind};

verus! {


/// Storage backend dimension.
#[derive(Clone, Copy, Debug, PartialEq, Eq, Hash, Structural)]
pub enum Storage {
    Mem,
    SurrealMem,
    SurrealRocksdb,
    SurrealTikv,
    Postgres,
    Sqlite,
    Scylla,
    TikvRaw,
}

/// Report slug of a storage backend.
pub open spec fn storage_slug(x: Storage) -> Seq<char> {
    match x {
        Storage::Mem => "mem"@,
        Storage::SurrealMem => "surreal-mem"@,
        Storage::SurrealRocksdb => "surreal-rocksdb"@,
        Storage::SurrealTikv => "surreal-tikv"@,
        Storage::Postgres => "postgres"@,
        Storage::Sqlite => "sqlite"@,
        Storage::Scylla => "scylla"@,
        Storage::TikvRaw => "tikv-raw"@,
    }
}

impl Storage {

    /// Whether this storage backend is implemented (all of them are).
    pub fn is_supported(self) -> (r: bool)
        ensures
            r == (self == Storage::Mem || self == Storage::SurrealMem || self == Storage::SurrealRocksdb || self == Storage::SurrealTikv || self == Storage::Postgres || self == Storage::Sqlite || self == Storage::Scylla || self == Storage::TikvRaw),
    {
        match self {
            Storage::Mem => true,
            Storage::SurrealMem => true,
            Storage::SurrealRocksdb => true,
            Storage::SurrealTikv => true,
            Storage::Postgres => true,
            Storage::Sqlite => true,
            Storage::Scylla => true,
            Storage::TikvRaw => true,
        }
    }

    /// Whether this storage requires a remote Scylla cluster.
    pub fn needs_remote_scylla(self) -> (r: bool)
        ensures
            r == (self == Storage::Scylla),
    {
        match self {
            Storage::Mem => false,
            Storage::SurrealMem => false,
            Storage::SurrealRocksdb => false,
            Storage::SurrealTikv => false,
            Storage::Postgres => false,
            Storage::Sqlite => false,
            Storage::Scylla => true,
            Storage::TikvRaw => false,
        }
    }

    /// Whether this storage requires a remote `TiKV` PD endpoint (raw client).
    pub fn needs_remote_tikv_raw(self) -> (r: bool)
        ensures
            r == (self == Storage::TikvRaw),
    {
        match self {
            Storage::Mem => false,
            Storage::SurrealMem => false,
            Storage::SurrealRocksdb => false,
            Storage::SurrealTikv => false,
            Storage::Postgres => false,
            Storage::Sqlite => false,
            Storage::Scylla => false,
            Storage::TikvRaw => true,
        }
    }

    /// Whether this storage requires a remote Surreal endpoint.
    pub fn needs_remote_surreal(self) -> (r: bool)
        ensures
            r == (self == Storage::SurrealTikv),
    {
        match self {
            Storage::Mem => false,
            Storage::SurrealMem => false,
            Storage::SurrealRocksdb => false,
            Storage::SurrealTikv => true,
            Storage::Postgres => false,
            Storage::Sqlite => false,
            Storage::Scylla => false,
            Storage::TikvRaw => false,
        }
    }

    /// Short slug for report filenames.
    pub fn slug(self) -> (s: &'static str)
        ensures
            s@ == storage_slug(self),
    {
        match self {
            Storage::Mem => "mem",
            Storage::SurrealMem => "surreal-mem",
            Storage::SurrealRocksdb => "surreal-rocksdb",
            Storage::SurrealTikv => "surreal-tikv",
            Storage::Postgres => "postgres",
            Storage::Sqlite => "sqlite",
            Storage::Scylla => "scylla",
            Storage::TikvRaw => "tikv-raw",
        }
    }

}

/// Topology dimension.
#[derive(Clone, Copy, Debug, PartialEq, Eq, Hash, Structural)]
pub enum Topology {
    IsolatedLab,
    SharedHandle,
    RemoteSurreal,
}

/// Report slug of a topology.
pub open spec fn topology_slug(x: Topology) -> Seq<char> {
    match x {
        Topology::IsolatedLab => "isolated-lab"@,
        Topology::SharedHandle => "shared-handle"@,
        Topology::RemoteSurreal => "remote-surreal"@,
    }
}

impl Topology {

    /// Short slug for report filenames.
    pub fn slug(self) -> (s: &'static str)
        ensures
            s@ == topology_slug(self),
    {
        match self {
            Topology::IsolatedLab => "isolated-lab",
            Topology::SharedHandle => "shared-handle",
            Topology::RemoteSurreal => "remote-surreal",
        }
    }

}

/// Telemetry dimension.
#[derive(Clone, Copy, Debug, PartialEq, Eq, Hash, Structural)]
pub enum Telemetry {
    Off,
    Console,
    Stub,
}

/// Report slug of a telemetry mode.
pub open spec fn telemetry_slug(x: Telemetry) -> Seq<char> {
    match x {
        Telemetry::Off => "off"@,
        Telemetry::Console => "console"@,
        Telemetry::Stub => "stub"@,
    }
}

impl Telemetry {

    /// Whether this telemetry mode is implemented.
    pub fn is_supported(self) -> (r: bool)
        ensures
            r == (self == Telemetry::Off || self == Telemetry::Console),
    {
        match self {
            Telemetry::Off => true,
            Telemetry::Console => true,
            Telemetry::Stub => false,
        }
    }

    /// Short slug for report filenames.
    pub fn slug(self) -> (s: &'static str)
        ensures
            s@ == telemetry_slug(self),
    {
        match self {
            Telemetry::Off => "off",
            Telemetry::Console => "console",
            Telemetry::Stub => "stub",
        }
    }

}

/// Hardware profile label.
#[derive(Clone, Copy, Debug, PartialEq, Eq, Hash, Structural)]
pub enum Hardware {
    DevWsl,
    CiSmall,
    BareMetalSmall,
    BareMetalMedium,
    BareMetalLarge,
    AwsT3Medium,
    AwsT3Small,
    AwsT4gSmall,
    AwsT4gMedium,
    AwsT4gLarge,
    AwsC7i4xlarge,
    AwsI4iXlarge,
}

/// Report slug of a hardware profile.
pub open spec fn hardware_slug(x: Hardware) -> Seq<char> {
    match x {
        Hardware::DevWsl => "dev-wsl"@,
        Hardware::CiSmall => "ci-small"@,
        Hardware::BareMetalSmall => "bare-metal-small"@,
        Hardware::BareMetalMedium => "bare-metal-medium"@,
        Hardware::BareMetalLarge => "bare-metal-large"@,
        Hardware::AwsT3Medium => "aws-t3-medium"@,
        Hardware::AwsT3Small => "aws-t3-small"@,
        Hardware::AwsT4gSmall => "aws-t4g-small"@,
        Hardware::AwsT4gMedium => "aws-t4g-medium"@,
        Hardware::AwsT4gLarge => "aws-t4g-large"@,
        Hardware::AwsC7i4xlarge => "aws-c7i-4xlarge"@,
        Hardware::AwsI4iXlarge => "aws-i4i-xlarge"@,
    }
}

/// Hardware profile named exactly by a slug.
pub open spec fn hardware_from_slug_spec(s: Seq<char>) -> Option<Hardware> {
    let t = s;
    if t == "dev-wsl"@ {
        Some(Hardware::DevWsl)
    } else if t == "ci-small"@ {
        Some(Hardware::CiSmall)
    } else if t == "bare-metal-small"@ {
        Some(Hardware::BareMetalSmall)
    } else if t == "bare-metal-medium"@ {
        Some(Hardware::BareMetalMedium)
    } else if t == "bare-metal-large"@ {
        Some(Hardware::BareMetalLarge)
    } else if t == "aws-t3-medium"@ {
        Some(Hardware::AwsT3Medium)
    } else if t == "aws-t3-small"@ {
        Some(Hardware::AwsT3Small)
    } else if t == "aws-t4g-small"@ {
        Some(Hardware::AwsT4gSmall)
    } else if t == "aws-t4g-medium"@ {
        Some(Hardware::AwsT4gMedium)
    } else if t == "aws-t4g-large"@ {
        Some(Hardware::AwsT4gLarge)
    } else if t == "aws-c7i-4xlarge"@ {
        Some(Hardware::AwsC7i4xlarge)
    } else if t == "aws-i4i-xlarge"@ {
        Some(Hardware::AwsI4iXlarge)
    } else {
        None
    }
}

impl Hardware {

    /// Short slug for report filenames.
    pub fn slug(self) -> (s: &'static str)
        ensures
            s@ == hardware_slug(self),
    {
        match self {
            Hardware::DevWsl => "dev-wsl",
            Hardware::CiSmall => "ci-small",
            Hardware::BareMetalSmall => "bare-metal-small",
            Hardware::BareMetalMedium => "bare-metal-medium",
            Hardware::BareMetalLarge => "bare-metal-large",
            Hardware::AwsT3Medium => "aws-t3-medium",
            Hardware::AwsT3Small => "aws-t3-small",
            Hardware::AwsT4gSmall => "aws-t4g-small",
            Hardware::AwsT4gMedium => "aws-t4g-medium",
            Hardware::AwsT4gLarge => "aws-t4g-large",
            Hardware::AwsC7i4xlarge => "aws-c7i-4xlarge",
            Hardware::AwsI4iXlarge => "aws-i4i-xlarge",
        }
    }

    /// Cloud / isolated-VM sizing profiles capture per-run CPU/RSS; lab `dev-wsl` is sanity-only.
    pub fn captures_run_resource_profile(self) -> (r: bool)
        ensures
            r == (self == Hardware::CiSmall || self == Hardware::AwsT3Medium || self == Hardware::AwsT3Small || self == Hardware::AwsT4gSmall || self == Hardware::AwsT4gMedium || self == Hardware::AwsT4gLarge || self == Hardware::AwsC7i4xlarge || self == Hardware::AwsI4iXlarge),
    {
        match self {
            Hardware::DevWsl => false,
            Hardware::CiSmall => true,
            Hardware::BareMetalSmall => false,
            Hardware::BareMetalMedium => false,
            Hardware::BareMetalLarge => false,
            Hardware::AwsT3Medium => true,
            Hardware::AwsT3Small => true,
            Hardware::AwsT4gSmall => true,
            Hardware::AwsT4gMedium => true,
            Hardware::AwsT4gLarge => true,
            Hardware::AwsC7i4xlarge => true,
            Hardware::AwsI4iXlarge => true,
        }
    }

    /// Parse a hardware slug from report JSON or CLI strings.
    pub fn from_slug(s: &str) -> (r: Option<Hardware>)
        ensures
            r == hardware_from_slug_spec(s@),
    {
        let t = s;
        if str_eq(t, "dev-wsl") {
            Some(Hardware::DevWsl)
        } else if str_eq(t, "ci-small") {
            Some(Hardware::CiSmall)
        } else if str_eq(t, "bare-metal-small") {
            Some(Hardware::BareMetalSmall)
        } else if str_eq(t, "bare-metal-medium") {
            Some(Hardware::BareMetalMedium)
        } else if str_eq(t, "bare-metal-large") {
            Some(Hardware::BareMetalLarge)
        } else if str_eq(t, "aws-t3-medium") {
            Some(Hardware::AwsT3Medium)
        } else if str_eq(t, "aws-t3-small") {
            Some(Hardware::AwsT3Small)
        } else if str_eq(t, "aws-t4g-small") {
            Some(Hardware::AwsT4gSmall)
        } else if str_eq(t, "aws-t4g-medium") {
            Some(Hardware::AwsT4gMedium)
        } else if str_eq(t, "aws-t4g-large") {
            Some(Hardware::AwsT4gLarge)
        } else if str_eq(t, "aws-c7i-4xlarge") {
            Some(Hardware::AwsC7i4xlarge)
        } else if str_eq(t, "aws-i4i-xlarge") {
            Some(Hardware::AwsI4iXlarge)
        } else {
            None
        }
    }

}

/// Every hardware profile is read back from its slug.
pub proof fn lemma_hardware_slug_roundtrip(x: Hardware)
    ensures
        hardware_from_slug_spec(hardware_slug(x)) == Some(x),
{
    match x {
        Hardware::DevWsl => {
            reveal_strlit("dev-wsl");
        },
        Hardware::CiSmall => {
            reveal_strlit("ci-small");
            reveal_strlit("dev-wsl");
            assert("ci-small"@.len() == 8 && "dev-wsl"@.len() == 7);
            assert("ci-small"@ != "dev-wsl"@);
        },
        Hardware::BareMetalSmall => {
            reveal_strlit("bare-metal-small");
            reveal_strlit("dev-wsl");
            assert("bare-metal-small"@.len() == 16 && "dev-wsl"@.len() == 7);
            assert("bare-metal-small"@ != "dev-wsl"@);
            reveal_strlit("ci-small");
            assert("bare-metal-small"@.len() == 16 && "ci-small"@.len() == 8);
            assert("bare-metal-small"@ != "ci-small"@);
        },
        Hardware::BareMetalMedium => {
            reveal_strlit("bare-metal-medium");
            reveal_strlit("dev-wsl");
            assert("bare-metal-medium"@.len() == 17 && "dev-wsl"@.len() == 7);
            assert("bare-metal-medium"@ != "dev-wsl"@);
            reveal_strlit("ci-small");
            assert("bare-metal-medium"@.len() == 17 && "ci-small"@.len() == 8);
            assert("bare-metal-medium"@ != "ci-small"@);
            reveal_strlit("bare-metal-small");
            assert("bare-metal-medium"@.len() == 17 && "bare-metal-small"@.len() == 16);
            assert("bare-metal-medium"@ != "bare-metal-small"@);
        },
        Hardware::BareMetalLarge => {
            reveal_strlit("bare-metal-large");
            reveal_strlit("dev-wsl");
            assert("bare-metal-large"@.len() == 16 && "dev-wsl"@.len() == 7);
            assert("bare-metal-large"@ != "dev-wsl"@);
            reveal_strlit("ci-small");
            assert("bare-metal-large"@.len() == 16 && "ci-small"@.len() == 8);
            assert("bare-metal-large"@ != "ci-small"@);
            reveal_strlit("bare-metal-small");
            assert("bare-metal-large"@[11] == 'l' && "bare-metal-small"@[11] == 's');
            assert("bare-metal-large"@ != "bare-metal-small"@);
            reveal_strlit("bare-metal-medium");
            assert("bare-metal-large"@.len() == 16 && "bare-metal-medium"@.len() == 17);
            assert("bare-metal-large"@ != "bare-metal-medium"@);
        },
        Hardware::AwsT3Medium => {
            reveal_strlit("aws-t3-medium");
            reveal_strlit("dev-wsl");
            assert("aws-t3-medium"@.len() == 13 && "dev-wsl"@.len() == 7);
            assert("aws-t3-medium"@ != "dev-wsl"@);
            reveal_strlit("ci-small");
            assert("aws-t3-medium"@.len() == 13 && "ci-small"@.len() == 8);
            assert("aws-t3-medium"@ != "ci-small"@);
            reveal_strlit("bare-metal-small");
            assert("aws-t3-medium"@.len() == 13 && "bare-metal-small"@.len() == 16);
            assert("aws-t3-medium"@ != "bare-metal-small"@);
            reveal_strlit("bare-metal-medium");
            assert("aws-t3-medium"@.len() == 13 && "bare-metal-medium"@.len() == 17);
            assert("aws-t3-medium"@ != "bare-metal-medium"@);
            reveal_strlit("bare-metal-large");
            assert("aws-t3-medium"@.len() == 13 && "bare-metal-large"@.len() == 16);
            assert("aws-t3-medium"@ != "bare-metal-large"@);
        },
        Hardware::AwsT3Small => {
            reveal_strlit("aws-t3-small");
            reveal_strlit("dev-wsl");
            assert("aws-t3-small"@.len() == 12 && "dev-wsl"@.len() == 7);
            assert("aws-t3-small"@ != "dev-wsl"@);
            reveal_strlit("ci-small");
            assert("aws-t3-small"@.len() == 12 && "ci-small"@.len() == 8);
            assert("aws-t3-small"@ != "ci-small"@);
            reveal_strlit("bare-metal-small");
            assert("aws-t3-small"@.len() == 12 && "bare-metal-small"@.len() == 16);
            assert("aws-t3-small"@ != "bare-metal-small"@);
            reveal_strlit("bare-metal-medium");
            assert("aws-t3-small"@.len() == 12 && "bare-metal-medium"@.len() == 17);
            assert("aws-t3-small"@ != "bare-metal-medium"@);
            reveal_strlit("bare-metal-large");
            assert("aws-t3-small"@.len() == 12 && "bare-metal-large"@.len() == 16);
            assert("aws-t3-small"@ != "bare-metal-large"@);
            reveal_strlit("aws-t3-medium");
            assert("aws-t3-small"@.len() == 12 && "aws-t3-medium"@.len() == 13);
            assert("aws-t3-small"@ != "aws-t3-medium"@);
        },
        Hardware::AwsT4gSmall => {
            reveal_strlit("aws-t4g-small");
            reveal_strlit("dev-wsl");
            assert("aws-t4g-small"@.len() == 13 && "dev-wsl"@.len() == 7);
            assert("aws-t4g-small"@ != "dev-wsl"@);
            reveal_strlit("ci-small");
            assert("aws-t4g-small"@.len() == 13 && "ci-small"@.len() == 8);
            assert("aws-t4g-small"@ != "ci-small"@);
            reveal_strlit("bare-metal-small");
            assert("aws-t4g-small"@.len() == 13 && "bare-metal-small"@.len() == 16);
            assert("aws-t4g-small"@ != "bare-metal-small"@);
            reveal_strlit("bare-metal-medium");
            assert("aws-t4g-small"@.len() == 13 && "bare-metal-medium"@.len() == 17);
            assert("aws-t4g-small"@ != "bare-metal-medium"@);
            reveal_strlit("bare-metal-large");
            assert("aws-t4g-small"@.len() == 13 && "bare-metal-large"@.len() == 16);
            assert("aws-t4g-small"@ != "bare-metal-large"@);
            reveal_strlit("aws-t3-medium");
            assert("aws-t4g-small"@[5] == '4' && "aws-t3-medium"@[5] == '3');
            assert("aws-t4g-small"@ != "aws-t3-medium"@);
            reveal_strlit("aws-t3-small");
            assert("aws-t4g-small"@.len() == 13 && "aws-t3-small"@.len() == 12);
            assert("aws-t4g-small"@ != "aws-t3-small"@);
        },
        Hardware::AwsT4gMedium => {
            reveal_strlit("aws-t4g-medium");
            reveal_strlit("dev-wsl");
            assert("aws-t4g-medium"@.len() == 14 && "dev-wsl"@.len() == 7);
            assert("aws-t4g-medium"@ != "dev-wsl"@);
            reveal_strlit("ci-small");
            assert("aws-t4g-medium"@.len() == 14 && "ci-small"@.len() == 8);
            assert("aws-t4g-medium"@ != "ci-small"@);
            reveal_strlit("bare-metal-small");
            assert("aws-t4g-medium"@.len() == 14 && "bare-metal-small"@.len() == 16);
            assert("aws-t4g-medium"@ != "bare-metal-small"@);
            reveal_strlit("bare-metal-medium");
            assert("aws-t4g-medium"@.len() == 14 && "bare-metal-medium"@.len() == 17);
            assert("aws-t4g-medium"@ != "bare-metal-medium"@);
            reveal_strlit("bare-metal-large");
            assert("aws-t4g-medium"@.len() == 14 && "bare-metal-large"@.len() == 16);
            assert("aws-t4g-medium"@ != "bare-metal-large"@);
            reveal_strlit("aws-t3-medium");
            assert("aws-t4g-medium"@.len() == 14 && "aws-t3-medium"@.len() == 13);
            assert("aws-t4g-medium"@ != "aws-t3-medium"@);
            reveal_strlit("aws-t3-small");
            assert("aws-t4g-medium"@.len() == 14 && "aws-t3-small"@.len() == 12);
            assert("aws-t4g-medium"@ != "aws-t3-small"@);
            reveal_strlit("aws-t4g-small");
            assert("aws-t4g-medium"@.len() == 14 && "aws-t4g-small"@.len() == 13);
            assert("aws-t4g-medium"@ != "aws-t4g-small"@);
        },
        Hardware::AwsT4gLarge => {
            reveal_strlit("aws-t4g-large");
            reveal_strlit("dev-wsl");
            assert("aws-t4g-large"@.len() == 13 && "dev-wsl"@.len() == 7);
            assert("aws-t4g-large"@ != "dev-wsl"@);
            reveal_strlit("ci-small");
            assert("aws-t4g-large"@.len() == 13 && "ci-small"@.len() == 8);
            assert("aws-t4g-large"@ != "ci-small"@);
            reveal_strlit("bare-metal-small");
            assert("aws-t4g-large"@.len() == 13 && "bare-metal-small"@.len() == 16);
            assert("aws-t4g-large"@ != "bare-metal-small"@);
            reveal_strlit("bare-metal-medium");
            assert("aws-t4g-large"@.len() == 13 && "bare-metal-medium"@.len() == 17);
            assert("aws-t4g-large"@ != "bare-metal-medium"@);
            reveal_strlit("bare-metal-large");
            assert("aws-t4g-large"@.len() == 13 && "bare-metal-large"@.len() == 16);
            assert("aws-t4g-large"@ != "bare-metal-large"@);
            reveal_strlit("aws-t3-medium");
            assert("aws-t4g-large"@[5] == '4' && "aws-t3-medium"@[5] == '3');
            assert("aws-t4g-large"@ != "aws-t3-medium"@);
            reveal_strlit("aws-t3-small");
            assert("aws-t4g-large"@.len() == 13 && "aws-t3-small"@.len() == 12);
            assert("aws-t4g-large"@ != "aws-t3-small"@);
            reveal_strlit("aws-t4g-small");
            assert("aws-t4g-large"@[8] == 'l' && "aws-t4g-small"@[8] == 's');
            assert("aws-t4g-large"@ != "aws-t4g-small"@);
            reveal_strlit("aws-t4g-medium");
            assert("aws-t4g-large"@.len() == 13 && "aws-t4g-medium"@.len() == 14);
            assert("aws-t4g-large"@ != "aws-t4g-medium"@);
        },
        Hardware::AwsC7i4xlarge => {
            reveal_strlit("aws-c7i-4xlarge");
            reveal_strlit("dev-wsl");
            assert("aws-c7i-4xlarge"@.len() == 15 && "dev-wsl"@.len() == 7);
            assert("aws-c7i-4xlarge"@ != "dev-wsl"@);
            reveal_strlit("ci-small");
            assert("aws-c7i-4xlarge"@.len() == 15 && "ci-small"@.len() == 8);
            assert("aws-c7i-4xlarge"@ != "ci-small"@);
            reveal_strlit("bare-metal-small");
            assert("aws-c7i-4xlarge"@.len() == 15 && "bare-metal-small"@.len() == 16);
            assert("aws-c7i-4xlarge"@ != "bare-metal-small"@);
            reveal_strlit("bare-metal-medium");
            assert("aws-c7i-4xlarge"@.len() == 15 && "bare-metal-medium"@.len() == 17);
            assert("aws-c7i-4xlarge"@ != "bare-metal-medium"@);
            reveal_strlit("bare-metal-large");
            assert("aws-c7i-4xlarge"@.len() == 15 && "bare-metal-large"@.len() == 16);
            assert("aws-c7i-4xlarge"@ != "bare-metal-large"@);
            reveal_strlit("aws-t3-medium");
            assert("aws-c7i-4xlarge"@.len() == 15 && "aws-t3-medium"@.len() == 13);
            assert("aws-c7i-4xlarge"@ != "aws-t3-medium"@);
            reveal_strlit("aws-t3-small");
            assert("aws-c7i-4xlarge"@.len() == 15 && "aws-t3-small"@.len() == 12);
            assert("aws-c7i-4xlarge"@ != "aws-t3-small"@);
            reveal_strlit("aws-t4g-small");
            assert("aws-c7i-4xlarge"@.len() == 15 && "aws-t4g-small"@.len() == 13);
            assert("aws-c7i-4xlarge"@ != "aws-t4g-small"@);
            reveal_strlit("aws-t4g-medium");
            assert("aws-c7i-4xlarge"@.len() == 15 && "aws-t4g-medium"@.len() == 14);
            assert("aws-c7i-4xlarge"@ != "aws-t4g-medium"@);
            reveal_strlit("aws-t4g-large");
            assert("aws-c7i-4xlarge"@.len() == 15 && "aws-t4g-large"@.len() == 13);
            assert("aws-c7i-4xlarge"@ != "aws-t4g-large"@);
        },
        Hardware::AwsI4iXlarge => {
            reveal_strlit("aws-i4i-xlarge");
            reveal_strlit("dev-wsl");
            assert("aws-i4i-xlarge"@.len() == 14 && "dev-wsl"@.len() == 7);
            assert("aws-i4i-xlarge"@ != "dev-wsl"@);
            reveal_strlit("ci-small");
            assert("aws-i4i-xlarge"@.len() == 14 && "ci-small"@.len() == 8);
            assert("aws-i4i-xlarge"@ != "ci-small"@);
            reveal_strlit("bare-metal-small");
            assert("aws-i4i-xlarge"@.len() == 14 && "bare-metal-small"@.len() == 16);
            assert("aws-i4i-xlarge"@ != "bare-metal-small"@);
            reveal_strlit("bare-metal-medium");
            assert("aws-i4i-xlarge"@.len() == 14 && "bare-metal-medium"@.len() == 17);
            assert("aws-i4i-xlarge"@ != "bare-metal-medium"@);
            reveal_strlit("bare-metal-large");
            assert("aws-i4i-xlarge"@.len() == 14 && "bare-metal-large"@.len() == 16);
            assert("aws-i4i-xlarge"@ != "bare-metal-large"@);
            reveal_strlit("aws-t3-medium");
            assert("aws-i4i-xlarge"@.len() == 14 && "aws-t3-medium"@.len() == 13);
            assert("aws-i4i-xlarge"@ != "aws-t3-medium"@);
            reveal_strlit("aws-t3-small");
            assert("aws-i4i-xlarge"@.len() == 14 && "aws-t3-small"@.len() == 12);
            assert("aws-i4i-xlarge"@ != "aws-t3-small"@);
            reveal_strlit("aws-t4g-small");
            assert("aws-i4i-xlarge"@.len() == 14 && "aws-t4g-small"@.len() == 13);
            assert("aws-i4i-xlarge"@ != "aws-t4g-small"@);
            reveal_strlit("aws-t4g-medium");
            assert("aws-i4i-xlarge"@[4] == 'i' && "aws-t4g-medium"@[4] == 't');
            assert("aws-i4i-xlarge"@ != "aws-t4g-medium"@);
            reveal_strlit("aws-t4g-large");
            assert("aws-i4i-xlarge"@.len() == 14 && "aws-t4g-large"@.len() == 13);
            assert("aws-i4i-xlarge"@ != "aws-t4g-large"@);
            reveal_strlit("aws-c7i-4xlarge");
            assert("aws-i4i-xlarge"@.len() == 14 && "aws-c7i-4xlarge"@.len() == 15);
            assert("aws-i4i-xlarge"@ != "aws-c7i-4xlarge"@);
        },
    }
}

/// Scylla cluster topology preset.
#[derive(Clone, Copy, Debug, PartialEq, Eq, Hash, Structural)]
pub enum ScyllaTopology {
    One,
    TwoNode,
    ThreeNode,
    FourNode,
    Custom,
}

/// Report slug of a Scylla preset.
pub open spec fn scylla_topology_slug(x: ScyllaTopology) -> Seq<char> {
    match x {
        ScyllaTopology::One => "scylla-1"@,
        ScyllaTopology::TwoNode => "scylla-2n"@,
        ScyllaTopology::ThreeNode => "scylla-3n"@,
        ScyllaTopology::FourNode => "scylla-4n"@,
        ScyllaTopology::Custom => "custom"@,
    }
}

/// Scylla preset named by a slug or a short alias, in any ASCII case.
pub open spec fn scylla_topology_parse_spec(s: Seq<char>) -> Option<ScyllaTopology> {
    let t = ascii_lower_seq(s);
    if t == "scylla-1"@ || t == "1"@ || t == "one"@ {
        Some(ScyllaTopology::One)
    } else if t == "scylla-2n"@ || t == "2n"@ || t == "scylla-2"@ {
        Some(ScyllaTopology::TwoNode)
    } else if t == "scylla-3n"@ || t == "3n"@ || t == "scylla-3"@ {
        Some(ScyllaTopology::ThreeNode)
    } else if t == "scylla-4n"@ || t == "4n"@ || t == "scylla-4"@ {
        Some(ScyllaTopology::FourNode)
    } else if t == "custom"@ {
        Some(ScyllaTopology::Custom)
    } else {
        None
    }
}

/// Storage nodes of a Scylla preset (0 for a custom cluster).
pub open spec fn scylla_node_count(x: ScyllaTopology) -> u8 {
    match x {
        ScyllaTopology::One => 1,
        ScyllaTopology::TwoNode => 2,
        ScyllaTopology::ThreeNode => 3,
        ScyllaTopology::FourNode => 4,
        ScyllaTopology::Custom => 0,
    }
}

impl ScyllaTopology {

    /// Short slug for report filenames and env export.
    pub fn slug(self) -> (s: &'static str)
        ensures
            s@ == scylla_topology_slug(self),
    {
        match self {
            ScyllaTopology::One => "scylla-1",
            ScyllaTopology::TwoNode => "scylla-2n",
            ScyllaTopology::ThreeNode => "scylla-3n",
            ScyllaTopology::FourNode => "scylla-4n",
            ScyllaTopology::Custom => "custom",
        }
    }

    /// Storage node count for this preset (excluding bench host).
    pub fn storage_node_count(self) -> (n: u8)
        ensures
            n == scylla_node_count(self),
    {
        match self {
            ScyllaTopology::One => 1,
            ScyllaTopology::TwoNode => 2,
            ScyllaTopology::ThreeNode => 3,
            ScyllaTopology::FourNode => 4,
            ScyllaTopology::Custom => 0,
        }
    }

    /// Native campaign presets (1 → 2 → 4 node series).
    pub fn native_presets() -> (p: Vec<ScyllaTopology>)
        ensures
            p@ == seq![ScyllaTopology::One, ScyllaTopology::TwoNode, ScyllaTopology::FourNode],
    {
        vec![ScyllaTopology::One, ScyllaTopology::TwoNode, ScyllaTopology::FourNode]
    }


    /// Parse a preset slug from env or CLI.
    pub fn parse(s: &str) -> (r: Option<ScyllaTopology>)
        ensures
            r == scylla_topology_parse_spec(s@),
    {
        let l = to_ascii_lowercase(s);
        let t = l.as_str();
        if str_eq(t, "scylla-1") || str_eq(t, "1") || str_eq(t, "one") {
            Some(ScyllaTopology::One)
        } else if str_eq(t, "scylla-2n") || str_eq(t, "2n") || str_eq(t, "scylla-2") {
            Some(ScyllaTopology::TwoNode)
        } else if str_eq(t, "scylla-3n") || str_eq(t, "3n") || str_eq(t, "scylla-3") {
            Some(ScyllaTopology::ThreeNode)
        } else if str_eq(t, "scylla-4n") || str_eq(t, "4n") || str_eq(t, "scylla-4") {
            Some(ScyllaTopology::FourNode)
        } else if str_eq(t, "custom") {
            Some(ScyllaTopology::Custom)
        } else {
            None
        }
    }


    /// Topology named by the value of `CONTINUUM_BENCH_SCYLLA_TOPOLOGY`, when set and valid.
    pub fn from_env(value: Option<&str>) -> (r: Option<ScyllaTopology>)
        ensures
            r == match value {
                Some(v) => scylla_topology_parse_spec(v@),
                None => None,
            },
    {
        match value {
            Some(v) => ScyllaTopology::parse(v),
            None => None,
        }
    }

}

/// Every Scylla preset is read back from its slug.
pub proof fn lemma_scylla_topology_roundtrip(x: ScyllaTopology)
    ensures
        scylla_topology_parse_spec(scylla_topology_slug(x)) == Some(x),
{
    match x {
        ScyllaTopology::One => {
            reveal_strlit("scylla-1");
            lemma_ascii_lower_unchanged("scylla-1"@);
        },
        ScyllaTopology::TwoNode => {
            reveal_strlit("scylla-2n");
            reveal_strlit("scylla-1");
            assert("scylla-2n"@.len() == 9 && "scylla-1"@.len() == 8);
            assert("scylla-2n"@ != "scylla-1"@);
            reveal_strlit("1");
            assert("scylla-2n"@.len() == 9 && "1"@.len() == 1);
            assert("scylla-2n"@ != "1"@);
            reveal_strlit("one");
            assert("scylla-2n"@.len() == 9 && "one"@.len() == 3);
            assert("scylla-2n"@ != "one"@);
            lemma_ascii_lower_unchanged("scylla-2n"@);
        },
        ScyllaTopology::ThreeNode => {
            reveal_strlit("scylla-3n");
            reveal_strlit("scylla-1");
            assert("scylla-3n"@.len() == 9 && "scylla-1"@.len() == 8);
            assert("scylla-3n"@ != "scylla-1"@);
            reveal_strlit("1");
            assert("scylla-3n"@.len() == 9 && "1"@.len() == 1);
            assert("scylla-3n"@ != "1"@);
            reveal_strlit("one");
            assert("scylla-3n"@.len() == 9 && "one"@.len() == 3);
            assert("scylla-3n"@ != "one"@);
            reveal_strlit("scylla-2n");
            assert("scylla-3n"@[7] == '3' && "scylla-2n"@[7] == '2');
            assert("scylla-3n"@ != "scylla-2n"@);
            reveal_strlit("2n");
            assert("scylla-3n"@.len() == 9 && "2n"@.len() == 2);
            assert("scylla-3n"@ != "2n"@);
            reveal_strlit("scylla-2");
            assert("scylla-3n"@.len() == 9 && "scylla-2"@.len() == 8);
            assert("scylla-3n"@ != "scylla-2"@);
            lemma_ascii_lower_unchanged("scylla-3n"@);
        },
        ScyllaTopology::FourNode => {
            reveal_strlit("scylla-4n");
            reveal_strlit("scylla-1");
            assert("scylla-4n"@.len() == 9 && "scylla-1"@.len() == 8);
            assert("scylla-4n"@ != "scylla-1"@);
            reveal_strlit("1");
            assert("scylla-4n"@.len() == 9 && "1"@.len() == 1);
            assert("scylla-4n"@ != "1"@);
            reveal_strlit("one");
            assert("scylla-4n"@.len() == 9 && "one"@.len() == 3);
            assert("scylla-4n"@ != "one"@);
            reveal_strlit("scylla-2n");
            assert("scylla-4n"@[7] == '4' && "scylla-2n"@[7] == '2');
            assert("scylla-4n"@ != "scylla-2n"@);
            reveal_strlit("2n");
            assert("scylla-4n"@.len() == 9 && "2n"@.len() == 2);
            assert("scylla-4n"@ != "2n"@);
            reveal_strlit("scylla-2");
            assert("scylla-4n"@.len() == 9 && "scylla-2"@.len() == 8);
            assert("scylla-4n"@ != "scylla-2"@);
            reveal_strlit("scylla-3n");
            assert("scylla-4n"@[7] == '4' && "scylla-3n"@[7] == '3');
            assert("scylla-4n"@ != "scylla-3n"@);
            reveal_strlit("3n");
            assert("scylla-4n"@.len() == 9 && "3n"@.len() == 2);
            assert("scylla-4n"@ != "3n"@);
            reveal_strlit("scylla-3");
            assert("scylla-4n"@.len() == 9 && "scylla-3"@.len() == 8);
            assert("scylla-4n"@ != "scylla-3"@);
            lemma_ascii_lower_unchanged("scylla-4n"@);
        },
        ScyllaTopology::Custom => {
            reveal_strlit("custom");
            reveal_strlit("scylla-1");
            assert("custom"@.len() == 6 && "scylla-1"@.len() == 8);
            assert("custom"@ != "scylla-1"@);
            reveal_strlit("1");
            assert("custom"@.len() == 6 && "1"@.len() == 1);
            assert("custom"@ != "1"@);
            reveal_strlit("one");
            assert("custom"@.len() == 6 && "one"@.len() == 3);
            assert("custom"@ != "one"@);
            reveal_strlit("scylla-2n");
            assert("custom"@.len() == 6 && "scylla-2n"@.len() == 9);
            assert("custom"@ != "scylla-2n"@);
            reveal_strlit("2n");
            assert("custom"@.len() == 6 && "2n"@.len() == 2);
            assert("custom"@ != "2n"@);
            reveal_strlit("scylla-2");
            assert("custom"@.len() == 6 && "scylla-2"@.len() == 8);
            assert("custom"@ != "scylla-2"@);
            reveal_strlit("scylla-3n");
            assert("custom"@.len() == 6 && "scylla-3n"@.len() == 9);
            assert("custom"@ != "scylla-3n"@);
            reveal_strlit("3n");
            assert("custom"@.len() == 6 && "3n"@.len() == 2);
            assert("custom"@ != "3n"@);
            reveal_strlit("scylla-3");
            assert("custom"@.len() == 6 && "scylla-3"@.len() == 8);
            assert("custom"@ != "scylla-3"@);
            reveal_strlit("scylla-4n");
            assert("custom"@.len() == 6 && "scylla-4n"@.len() == 9);
            assert("custom"@ != "scylla-4n"@);
            reveal_strlit("4n");
            assert("custom"@.len() == 6 && "4n"@.len() == 2);
            assert("custom"@ != "4n"@);
            reveal_strlit("scylla-4");
            assert("custom"@.len() == 6 && "scylla-4"@.len() == 8);
            assert("custom"@ != "scylla-4"@);
            lemma_ascii_lower_unchanged("custom"@);
        },
    }
}

/// `TiKV` cluster topology preset.
#[derive(Clone, Copy, Debug, PartialEq, Eq, Hash, Structural)]
pub enum TikvTopology {
    Minimal,
    Ha2,
    Ha3,
    Scale4,
    Scale5,
    Custom,
}

/// Report slug of a `TiKV` preset.
pub open spec fn tikv_topology_slug(x: TikvTopology) -> Seq<char> {
    match x {
        TikvTopology::Minimal => "tikv-minimal"@,
        TikvTopology::Ha2 => "tikv-ha-2"@,
        TikvTopology::Ha3 => "tikv-ha-3"@,
        TikvTopology::Scale4 => "tikv-scale-4"@,
        TikvTopology::Scale5 => "tikv-scale-5"@,
        TikvTopology::Custom => "custom"@,
    }
}

/// `TiKV` preset named by a slug or a short alias, in any ASCII case.
pub open spec fn tikv_topology_parse_spec(s: Seq<char>) -> Option<TikvTopology> {
    let t = ascii_lower_seq(s);
    if t == "tikv-minimal"@ || t == "minimal"@ {
        Some(TikvTopology::Minimal)
    } else if t == "tikv-ha-2"@ || t == "ha2"@ {
        Some(TikvTopology::Ha2)
    } else if t == "tikv-ha-3"@ || t == "ha3"@ {
        Some(TikvTopology::Ha3)
    } else if t == "tikv-scale-4"@ || t == "scale4"@ {
        Some(TikvTopology::Scale4)
    } else if t == "tikv-scale-5"@ || t == "scale5"@ {
        Some(TikvTopology::Scale5)
    } else if t == "custom"@ {
        Some(TikvTopology::Custom)
    } else {
        None
    }
}

/// `TiKV` stores of a preset (0 for a custom cluster).
pub open spec fn tikv_node_count(x: TikvTopology) -> u8 {
    match x {
        TikvTopology::Minimal => 1,
        TikvTopology::Ha2 => 2,
        TikvTopology::Ha3 => 3,
        TikvTopology::Scale4 => 4,
        TikvTopology::Scale5 => 5,
        TikvTopology::Custom => 0,
    }
}

/// Presets swept by the `tikv-lab-colocated` matrix slice.
pub open spec fn tikv_lab_presets() -> Seq<TikvTopology> {
    seq![TikvTopology::Minimal, TikvTopology::Ha3, TikvTopology::Scale5]
}

impl TikvTopology {

    /// Short slug for report filenames and env export.
    pub fn slug(self) -> (s: &'static str)
        ensures
            s@ == tikv_topology_slug(self),
    {
        match self {
            TikvTopology::Minimal => "tikv-minimal",
            TikvTopology::Ha2 => "tikv-ha-2",
            TikvTopology::Ha3 => "tikv-ha-3",
            TikvTopology::Scale4 => "tikv-scale-4",
            TikvTopology::Scale5 => "tikv-scale-5",
            TikvTopology::Custom => "custom",
        }
    }

    /// `TiKV` store count for this preset (excluding PD and bench).
    pub fn storage_node_count(self) -> (n: u8)
        ensures
            n == tikv_node_count(self),
    {
        match self {
            TikvTopology::Minimal => 1,
            TikvTopology::Ha2 => 2,
            TikvTopology::Ha3 => 3,
            TikvTopology::Scale4 => 4,
            TikvTopology::Scale5 => 5,
            TikvTopology::Custom => 0,
        }
    }

    /// All lab presets swept by the `tikv-lab-colocated` matrix slice.
    pub fn lab_presets() -> (p: Vec<TikvTopology>)
        ensures
            p@ == tikv_lab_presets(),
    {
        vec![TikvTopology::Minimal, TikvTopology::Ha3, TikvTopology::Scale5]
    }

    /// Native campaign presets (1 → 2 → 4 node series).
    pub fn native_presets() -> (p: Vec<TikvTopology>)
        ensures
            p@ == seq![TikvTopology::Minimal, TikvTopology::Ha2, TikvTopology::Scale4],
    {
        vec![TikvTopology::Minimal, TikvTopology::Ha2, TikvTopology::Scale4]
    }


    /// Parse a preset slug from env or CLI.
    pub fn parse(s: &str) -> (r: Option<TikvTopology>)
        ensures
            r == tikv_topology_parse_spec(s@),
    {
        let l = to_ascii_lowercase(s);
        let t = l.as_str();
        if str_eq(t, "tikv-minimal") || str_eq(t, "minimal") {
            Some(TikvTopology::Minimal)
        } else if str_eq(t, "tikv-ha-2") || str_eq(t, "ha2") {
            Some(TikvTopology::Ha2)
        } else if str_eq(t, "tikv-ha-3") || str_eq(t, "ha3") {
            Some(TikvTopology::Ha3)
        } else if str_eq(t, "tikv-scale-4") || str_eq(t, "scale4") {
            Some(TikvTopology::Scale4)
        } else if str_eq(t, "tikv-scale-5") || str_eq(t, "scale5") {
            Some(TikvTopology::Scale5)
        } else if str_eq(t, "custom") {
            Some(TikvTopology::Custom)
        } else {
            None
        }
    }


    /// Topology named by the value of `CONTINUUM_BENCH_TIKV_TOPOLOGY`, when set and valid.
    pub fn from_env(value: Option<&str>) -> (r: Option<TikvTopology>)
        ensures
            r == match value {
                Some(v) => tikv_topology_parse_spec(v@),
                None => None,
            },
    {
        match value {
            Some(v) => TikvTopology::parse(v),
            None => None,
        }
    }

}

/// Every `TiKV` preset is read back from its slug.
pub proof fn lemma_tikv_topology_roundtrip(x: TikvTopology)
    ensures
        tikv_topology_parse_spec(tikv_topology_slug(x)) == Some(x),
{
    match x {
        TikvTopology::Minimal => {
            reveal_strlit("tikv-minimal");
            lemma_ascii_lower_unchanged("tikv-minimal"@);
        },
        TikvTopology::Ha2 => {
            reveal_strlit("tikv-ha-2");
            reveal_strlit("tikv-minimal");
            assert("tikv-ha-2"@.len() == 9 && "tikv-minimal"@.len() == 12);
            assert("tikv-ha-2"@ != "tikv-minimal"@);
            reveal_strlit("minimal");
            assert("tikv-ha-2"@.len() == 9 && "minimal"@.len() == 7);
            assert("tikv-ha-2"@ != "minimal"@);
            lemma_ascii_lower_unchanged("tikv-ha-2"@);
        },
        TikvTopology::Ha3 => {
            reveal_strlit("tikv-ha-3");
            reveal_strlit("tikv-minimal");
            assert("tikv-ha-3"@.len() == 9 && "tikv-minimal"@.len() == 12);
            assert("tikv-ha-3"@ != "tikv-minimal"@);
            reveal_strlit("minimal");
            assert("tikv-ha-3"@.len() == 9 && "minimal"@.len() == 7);
            assert("tikv-ha-3"@ != "minimal"@);
            reveal_strlit("tikv-ha-2");
            assert("tikv-ha-3"@[8] == '3' && "tikv-ha-2"@[8] == '2');
            assert("tikv-ha-3"@ != "tikv-ha-2"@);
            reveal_strlit("ha2");
            assert("tikv-ha-3"@.len() == 9 && "ha2"@.len() == 3);
            assert("tikv-ha-3"@ != "ha2"@);
            lemma_ascii_lower_unchanged("tikv-ha-3"@);
        },
        TikvTopology::Scale4 => {
            reveal_strlit("tikv-scale-4");
            reveal_strlit("tikv-minimal");
            assert("tikv-scale-4"@[5] == 's' && "tikv-minimal"@[5] == 'm');
            assert("tikv-scale-4"@ != "tikv-minimal"@);
            reveal_strlit("minimal");
            assert("tikv-scale-4"@.len() == 12 && "minimal"@.len() == 7);
            assert("tikv-scale-4"@ != "minimal"@);
            reveal_strlit("tikv-ha-2");
            assert("tikv-scale-4"@.len() == 12 && "tikv-ha-2"@.len() == 9);
            assert("tikv-scale-4"@ != "tikv-ha-2"@);
            reveal_strlit("ha2");
            assert("tikv-scale-4"@.len() == 12 && "ha2"@.len() == 3);
            assert("tikv-scale-4"@ != "ha2"@);
            reveal_strlit("tikv-ha-3");
            assert("tikv-scale-4"@.len() == 12 && "tikv-ha-3"@.len() == 9);
            assert("tikv-scale-4"@ != "tikv-ha-3"@);
            reveal_strlit("ha3");
            assert("tikv-scale-4"@.len() == 12 && "ha3"@.len() == 3);
            assert("tikv-scale-4"@ != "ha3"@);
            lemma_ascii_lower_unchanged("tikv-scale-4"@);
        },
        TikvTopology::Scale5 => {
            reveal_strlit("tikv-scale-5");
            reveal_strlit("tikv-minimal");
            assert("tikv-scale-5"@[5] == 's' && "tikv-minimal"@[5] == 'm');
            assert("tikv-scale-5"@ != "tikv-minimal"@);
            reveal_strlit("minimal");
            assert("tikv-scale-5"@.len() == 12 && "minimal"@.len() == 7);
            assert("tikv-scale-5"@ != "minimal"@);
            reveal_strlit("tikv-ha-2");
            assert("tikv-scale-5"@.len() == 12 && "tikv-ha-2"@.len() == 9);
            assert("tikv-scale-5"@ != "tikv-ha-2"@);
            reveal_strlit("ha2");
            assert("tikv-scale-5"@.len() == 12 && "ha2"@.len() == 3);
            assert("tikv-scale-5"@ != "ha2"@);
            reveal_strlit("tikv-ha-3");
            assert("tikv-scale-5"@.len() == 12 && "tikv-ha-3"@.len() == 9);
            assert("tikv-scale-5"@ != "tikv-ha-3"@);
            reveal_strlit("ha3");
            assert("tikv-scale-5"@.len() == 12 && "ha3"@.len() == 3);
            assert("tikv-scale-5"@ != "ha3"@);
            reveal_strlit("tikv-scale-4");
            assert("tikv-scale-5"@[11] == '5' && "tikv-scale-4"@[11] == '4');
            assert("tikv-scale-5"@ != "tikv-scale-4"@);
            reveal_strlit("scale4");
            assert("tikv-scale-5"@.len() == 12 && "scale4"@.len() == 6);
            assert("tikv-scale-5"@ != "scale4"@);
            lemma_ascii_lower_unchanged("tikv-scale-5"@);
        },
        TikvTopology::Custom => {
            reveal_strlit("custom");
            reveal_strlit("tikv-minimal");
            assert("custom"@.len() == 6 && "tikv-minimal"@.len() == 12);
            assert("custom"@ != "tikv-minimal"@);
            reveal_strlit("minimal");
            assert("custom"@.len() == 6 && "minimal"@.len() == 7);
            assert("custom"@ != "minimal"@);
            reveal_strlit("tikv-ha-2");
            assert("custom"@.len() == 6 && "tikv-ha-2"@.len() == 9);
            assert("custom"@ != "tikv-ha-2"@);
            reveal_strlit("ha2");
            assert("custom"@.len() == 6 && "ha2"@.len() == 3);
            assert("custom"@ != "ha2"@);
            reveal_strlit("tikv-ha-3");
            assert("custom"@.len() == 6 && "tikv-ha-3"@.len() == 9);
            assert("custom"@ != "tikv-ha-3"@);
            reveal_strlit("ha3");
            assert("custom"@.len() == 6 && "ha3"@.len() == 3);
            assert("custom"@ != "ha3"@);
            reveal_strlit("tikv-scale-4");
            assert("custom"@.len() == 6 && "tikv-scale-4"@.len() == 12);
            assert("custom"@ != "tikv-scale-4"@);
            reveal_strlit("scale4");
            assert("custom"@[0] == 'c' && "scale4"@[0] == 's');
            assert("custom"@ != "scale4"@);
            reveal_strlit("tikv-scale-5");
            assert("custom"@.len() == 6 && "tikv-scale-5"@.len() == 12);
            assert("custom"@ != "tikv-scale-5"@);
            reveal_strlit("scale5");
            assert("custom"@[0] == 'c' && "scale5"@[0] == 's');
            assert("custom"@ != "scale5"@);
            lemma_ascii_lower_unchanged("custom"@);
        },
    }
}

/// Where the `SurrealDB` server runs relative to the benchmark process.
#[derive(Clone, Copy, Debug, PartialEq, Eq, Hash, Structural)]
pub enum SurrealDeployment {
    Colocated,
    Remote,
    MultiNode,
}

/// Report slug of a Surreal deployment.
pub open spec fn surreal_deployment_slug(x: SurrealDeployment) -> Seq<char> {
    match x {
        SurrealDeployment::Colocated => "colocated"@,
        SurrealDeployment::Remote => "remote"@,
        SurrealDeployment::MultiNode => "multi-node"@,
    }
}

impl SurrealDeployment {

    /// Short slug stored in report JSON.
    pub fn slug(self) -> (s: &'static str)
        ensures
            s@ == surreal_deployment_slug(self),
    {
        match self {
            SurrealDeployment::Colocated => "colocated",
            SurrealDeployment::Remote => "remote",
            SurrealDeployment::MultiNode => "multi-node",
        }
    }

}
/// Registered experiment identifiers.
#[derive(Clone, Copy, Debug, PartialEq, Eq, Hash, Structural)]
pub enum ExperimentId {
    BmC0,
    BmC1,
    BmC2,
    BmC3,
    BmC4,
    BmC5,
    BmC6,
    BmL0,
    BmL1,
    BmL2,
    BmL3,
    BmP1,
    BmP2,
    BmM1,
    BmM2,
    BmM3,
    BmM4,
    BmM5,
}

/// All registered experiments, in run order.
pub open spec fn all_experiments() -> Seq<ExperimentId> {
    seq![ExperimentId::BmC0, ExperimentId::BmC1, ExperimentId::BmC2, ExperimentId::BmC3, ExperimentId::BmC4, ExperimentId::BmC5, ExperimentId::BmC6, ExperimentId::BmL0, ExperimentId::BmL1, ExperimentId::BmL2, ExperimentId::BmL3, ExperimentId::BmP1, ExperimentId::BmP2, ExperimentId::BmM1, ExperimentId::BmM2, ExperimentId::BmM3, ExperimentId::BmM4, ExperimentId::BmM5]
}

/// Slug of an experiment.
pub open spec fn experiment_slug(x: ExperimentId) -> Seq<char> {
    match x {
        ExperimentId::BmC0 => "bm-c0"@,
        ExperimentId::BmC1 => "bm-c1"@,
        ExperimentId::BmC2 => "bm-c2"@,
        ExperimentId::BmC3 => "bm-c3"@,
        ExperimentId::BmC4 => "bm-c4"@,
        ExperimentId::BmC5 => "bm-c5"@,
        ExperimentId::BmC6 => "bm-c6"@,
        ExperimentId::BmL0 => "bm-l0"@,
        ExperimentId::BmL1 => "bm-l1"@,
        ExperimentId::BmL2 => "bm-l2"@,
        ExperimentId::BmL3 => "bm-l3"@,
        ExperimentId::BmP1 => "bm-p1"@,
        ExperimentId::BmP2 => "bm-p2"@,
        ExperimentId::BmM1 => "bm-m1"@,
        ExperimentId::BmM2 => "bm-m2"@,
        ExperimentId::BmM3 => "bm-m3"@,
        ExperimentId::BmM4 => "bm-m4"@,
        ExperimentId::BmM5 => "bm-m5"@,
    }
}

/// Experiment named by a slug, in any ASCII case.
pub open spec fn experiment_parse_spec(s: Seq<char>) -> Option<ExperimentId> {
    let t = ascii_lower_seq(s);
    if t == "bm-c0"@ {
        Some(ExperimentId::BmC0)
    } else if t == "bm-c1"@ {
        Some(ExperimentId::BmC1)
    } else if t == "bm-c2"@ {
        Some(ExperimentId::BmC2)
    } else if t == "bm-c3"@ {
        Some(ExperimentId::BmC3)
    } else if t == "bm-c4"@ {
        Some(ExperimentId::BmC4)
    } else if t == "bm-c5"@ {
        Some(ExperimentId::BmC5)
    } else if t == "bm-c6"@ {
        Some(ExperimentId::BmC6)
    } else if t == "bm-l0"@ {
        Some(ExperimentId::BmL0)
    } else if t == "bm-l1"@ {
        Some(ExperimentId::BmL1)
    } else if t == "bm-l2"@ {
        Some(ExperimentId::BmL2)
    } else if t == "bm-l3"@ {
        Some(ExperimentId::BmL3)
    } else if t == "bm-p1"@ {
        Some(ExperimentId::BmP1)
    } else if t == "bm-p2"@ {
        Some(ExperimentId::BmP2)
    } else if t == "bm-m1"@ {
        Some(ExperimentId::BmM1)
    } else if t == "bm-m2"@ {
        Some(ExperimentId::BmM2)
    } else if t == "bm-m3"@ {
        Some(ExperimentId::BmM3)
    } else if t == "bm-m4"@ {
        Some(ExperimentId::BmM4)
    } else if t == "bm-m5"@ {
        Some(ExperimentId::BmM5)
    } else {
        None
    }
}

/// Pre-registered pass criterion of an experiment.
pub open spec fn pass_criteria_spec(x: ExperimentId) -> Seq<char> {
    match x {
        ExperimentId::BmC0 => "Flat vs op count at 5k ops"@,
        ExperimentId::BmC1 => "Throughput scales with batch"@,
        ExperimentId::BmC2 => "Flat at 100k rows"@,
        ExperimentId::BmC3 => "Flat over 10k commits"@,
        ExperimentId::BmC4 => "Read stable after truncate"@,
        ExperimentId::BmC5 => "Growth only on same handle"@,
        ExperimentId::BmC6 => "<2× isolated at 1 op/s"@,
        ExperimentId::BmL0 => "error rate <0.1%"@,
        ExperimentId::BmL1 => "error rate <0.1%"@,
        ExperimentId::BmL2 => "error rate <0.1%"@,
        ExperimentId::BmL3 => "error rate <0.1%"@,
        ExperimentId::BmP1 => "aggregate ops scales with partition count"@,
        ExperimentId::BmP2 => "read completes for all partitions"@,
        ExperimentId::BmM1 => "error rate <0.1%"@,
        ExperimentId::BmM2 => "error rate <0.1%"@,
        ExperimentId::BmM3 => "error rate <0.1%"@,
        ExperimentId::BmM4 => "error rate <0.1%"@,
        ExperimentId::BmM5 => "error rate <0.1%"@,
    }
}

/// Primary metric of an experiment.
pub open spec fn primary_metric_spec(x: ExperimentId) -> Seq<char> {
    match x {
        ExperimentId::BmC0 => "p50/p95 append ms"@,
        ExperimentId::BmC1 => "events/s"@,
        ExperimentId::BmC2 => "poll ms vs table size"@,
        ExperimentId::BmC3 => "checkpoint upsert ms"@,
        ExperimentId::BmC4 => "space + read ms post-truncate"@,
        ExperimentId::BmC5 => "same vs isolated handle growth"@,
        ExperimentId::BmC6 => "growth ratio"@,
        ExperimentId::BmL0 => "sustained p99"@,
        ExperimentId::BmL1 => "sustained p99"@,
        ExperimentId::BmL2 => "sustained p99"@,
        ExperimentId::BmL3 => "sustained p99"@,
        ExperimentId::BmP1 => "aggregate ops/s"@,
        ExperimentId::BmP2 => "read ops/s"@,
        ExperimentId::BmM1 => "aggregate ops/s"@,
        ExperimentId::BmM2 => "aggregate ops/s"@,
        ExperimentId::BmM3 => "aggregate ops/s"@,
        ExperimentId::BmM4 => "aggregate ops/s"@,
        ExperimentId::BmM5 => "aggregate ops/s"@,
    }
}

/// Key of an experiment's row in the results table.
pub open spec fn row_key_spec(x: ExperimentId) -> Seq<char> {
    match x {
        ExperimentId::BmC0 => "BM-C0"@,
        ExperimentId::BmC1 => "BM-C1"@,
        ExperimentId::BmC2 => "BM-C2"@,
        ExperimentId::BmC3 => "BM-C3"@,
        ExperimentId::BmC4 => "BM-C4"@,
        ExperimentId::BmC5 => "BM-C5"@,
        ExperimentId::BmC6 => "BM-C6"@,
        ExperimentId::BmL0 => "BM-L0"@,
        ExperimentId::BmL1 => "BM-L1"@,
        ExperimentId::BmL2 => "BM-L2"@,
        ExperimentId::BmL3 => "BM-L3"@,
        ExperimentId::BmP1 => "BM-P1"@,
        ExperimentId::BmP2 => "BM-P2"@,
        ExperimentId::BmM1 => "BM-M1"@,
        ExperimentId::BmM2 => "BM-M2"@,
        ExperimentId::BmM3 => "BM-M3"@,
        ExperimentId::BmM4 => "BM-M4"@,
        ExperimentId::BmM5 => "BM-M5"@,
    }
}

impl ExperimentId {

    /// All registered experiment ids in run order.
    pub fn all() -> (ids: Vec<ExperimentId>)
        ensures
            ids@ == all_experiments(),
    {
        vec![ExperimentId::BmC0, ExperimentId::BmC1, ExperimentId::BmC2, ExperimentId::BmC3, ExperimentId::BmC4, ExperimentId::BmC5, ExperimentId::BmC6, ExperimentId::BmL0, ExperimentId::BmL1, ExperimentId::BmL2, ExperimentId::BmL3, ExperimentId::BmP1, ExperimentId::BmP2, ExperimentId::BmM1, ExperimentId::BmM2, ExperimentId::BmM3, ExperimentId::BmM4, ExperimentId::BmM5]
    }


    /// Short slug used in CLI and report filenames.
    pub fn slug(self) -> (s: &'static str)
        ensures
            s@ == experiment_slug(self),
    {
        match self {
            ExperimentId::BmC0 => "bm-c0",
            ExperimentId::BmC1 => "bm-c1",
            ExperimentId::BmC2 => "bm-c2",
            ExperimentId::BmC3 => "bm-c3",
            ExperimentId::BmC4 => "bm-c4",
            ExperimentId::BmC5 => "bm-c5",
            ExperimentId::BmC6 => "bm-c6",
            ExperimentId::BmL0 => "bm-l0",
            ExperimentId::BmL1 => "bm-l1",
            ExperimentId::BmL2 => "bm-l2",
            ExperimentId::BmL3 => "bm-l3",
            ExperimentId::BmP1 => "bm-p1",
            ExperimentId::BmP2 => "bm-p2",
            ExperimentId::BmM1 => "bm-m1",
            ExperimentId::BmM2 => "bm-m2",
            ExperimentId::BmM3 => "bm-m3",
            ExperimentId::BmM4 => "bm-m4",
            ExperimentId::BmM5 => "bm-m5",
        }
    }

    /// Parse an experiment slug from CLI input.
    pub fn parse(s: &str) -> (r: Option<ExperimentId>)
        ensures
            r == experiment_parse_spec(s@),
    {
        let l = to_ascii_lowercase(s);
        let t = l.as_str();
        if str_eq(t, "bm-c0") {
            Some(ExperimentId::BmC0)
        } else if str_eq(t, "bm-c1") {
            Some(ExperimentId::BmC1)
        } else if str_eq(t, "bm-c2") {
            Some(ExperimentId::BmC2)
        } else if str_eq(t, "bm-c3") {
            Some(ExperimentId::BmC3)
        } else if str_eq(t, "bm-c4") {
            Some(ExperimentId::BmC4)
        } else if str_eq(t, "bm-c5") {
            Some(ExperimentId::BmC5)
        } else if str_eq(t, "bm-c6") {
            Some(ExperimentId::BmC6)
        } else if str_eq(t, "bm-l0") {
            Some(ExperimentId::BmL0)
        } else if str_eq(t, "bm-l1") {
            Some(ExperimentId::BmL1)
        } else if str_eq(t, "bm-l2") {
            Some(ExperimentId::BmL2)
        } else if str_eq(t, "bm-l3") {
            Some(ExperimentId::BmL3)
        } else if str_eq(t, "bm-p1") {
            Some(ExperimentId::BmP1)
        } else if str_eq(t, "bm-p2") {
            Some(ExperimentId::BmP2)
        } else if str_eq(t, "bm-m1") {
            Some(ExperimentId::BmM1)
        } else if str_eq(t, "bm-m2") {
            Some(ExperimentId::BmM2)
        } else if str_eq(t, "bm-m3") {
            Some(ExperimentId::BmM3)
        } else if str_eq(t, "bm-m4") {
            Some(ExperimentId::BmM4)
        } else if str_eq(t, "bm-m5") {
            Some(ExperimentId::BmM5)
        } else {
            None
        }
    }

    /// Pre-registered pass criteria.
    pub fn pass_criteria(self) -> (s: &'static str)
        ensures
            s@ == pass_criteria_spec(self),
    {
        match self {
            ExperimentId::BmC0 => "Flat vs op count at 5k ops",
            ExperimentId::BmC1 => "Throughput scales with batch",
            ExperimentId::BmC2 => "Flat at 100k rows",
            ExperimentId::BmC3 => "Flat over 10k commits",
            ExperimentId::BmC4 => "Read stable after truncate",
            ExperimentId::BmC5 => "Growth only on same handle",
            ExperimentId::BmC6 => "<2× isolated at 1 op/s",
            ExperimentId::BmL0 => "error rate <0.1%",
            ExperimentId::BmL1 => "error rate <0.1%",
            ExperimentId::BmL2 => "error rate <0.1%",
            ExperimentId::BmL3 => "error rate <0.1%",
            ExperimentId::BmP1 => "aggregate ops scales with partition count",
            ExperimentId::BmP2 => "read completes for all partitions",
            ExperimentId::BmM1 => "error rate <0.1%",
            ExperimentId::BmM2 => "error rate <0.1%",
            ExperimentId::BmM3 => "error rate <0.1%",
            ExperimentId::BmM4 => "error rate <0.1%",
            ExperimentId::BmM5 => "error rate <0.1%",
        }
    }

    /// Primary metric recorded in reports.
    pub fn primary_metric(self) -> (s: &'static str)
        ensures
            s@ == primary_metric_spec(self),
    {
        match self {
            ExperimentId::BmC0 => "p50/p95 append ms",
            ExperimentId::BmC1 => "events/s",
            ExperimentId::BmC2 => "poll ms vs table size",
            ExperimentId::BmC3 => "checkpoint upsert ms",
            ExperimentId::BmC4 => "space + read ms post-truncate",
            ExperimentId::BmC5 => "same vs isolated handle growth",
            ExperimentId::BmC6 => "growth ratio",
            ExperimentId::BmL0 => "sustained p99",
            ExperimentId::BmL1 => "sustained p99",
            ExperimentId::BmL2 => "sustained p99",
            ExperimentId::BmL3 => "sustained p99",
            ExperimentId::BmP1 => "aggregate ops/s",
            ExperimentId::BmP2 => "read ops/s",
            ExperimentId::BmM1 => "aggregate ops/s",
            ExperimentId::BmM2 => "aggregate ops/s",
            ExperimentId::BmM3 => "aggregate ops/s",
            ExperimentId::BmM4 => "aggregate ops/s",
            ExperimentId::BmM5 => "aggregate ops/s",
        }
    }

    /// Row key of the experiment in the results table (`BM-C0`, ...).
    pub fn row_key(self) -> (s: &'static str)
        ensures
            s@ == row_key_spec(self),
    {
        match self {
            ExperimentId::BmC0 => "BM-C0",
            ExperimentId::BmC1 => "BM-C1",
            ExperimentId::BmC2 => "BM-C2",
            ExperimentId::BmC3 => "BM-C3",
            ExperimentId::BmC4 => "BM-C4",
            ExperimentId::BmC5 => "BM-C5",
            ExperimentId::BmC6 => "BM-C6",
            ExperimentId::BmL0 => "BM-L0",
            ExperimentId::BmL1 => "BM-L1",
            ExperimentId::BmL2 => "BM-L2",
            ExperimentId::BmL3 => "BM-L3",
            ExperimentId::BmP1 => "BM-P1",
            ExperimentId::BmP2 => "BM-P2",
            ExperimentId::BmM1 => "BM-M1",
            ExperimentId::BmM2 => "BM-M2",
            ExperimentId::BmM3 => "BM-M3",
            ExperimentId::BmM4 => "BM-M4",
            ExperimentId::BmM5 => "BM-M5",
        }
    }

}

/// Every experiment is read back from its slug.
pub proof fn lemma_experiment_slug_roundtrip(x: ExperimentId)
    ensures
        experiment_parse_spec(experiment_slug(x)) == Some(x),
{
    match x {
        ExperimentId::BmC0 => {
            reveal_strlit("bm-c0");
            lemma_ascii_lower_unchanged("bm-c0"@);
        },
        ExperimentId::BmC1 => {
            reveal_strlit("bm-c1");
            reveal_strlit("bm-c0");
            assert("bm-c1"@[4] == '1' && "bm-c0"@[4] == '0');
            assert("bm-c1"@ != "bm-c0"@);
            lemma_ascii_lower_unchanged("bm-c1"@);
        },
        ExperimentId::BmC2 => {
            reveal_strlit("bm-c2");
            reveal_strlit("bm-c0");
            assert("bm-c2"@[4] == '2' && "bm-c0"@[4] == '0');
            assert("bm-c2"@ != "bm-c0"@);
            reveal_strlit("bm-c1");
            assert("bm-c2"@[4] == '2' && "bm-c1"@[4] == '1');
            assert("bm-c2"@ != "bm-c1"@);
            lemma_ascii_lower_unchanged("bm-c2"@);
        },
        ExperimentId::BmC3 => {
            reveal_strlit("bm-c3");
            reveal_strlit("bm-c0");
            assert("bm-c3"@[4] == '3' && "bm-c0"@[4] == '0');
            assert("bm-c3"@ != "bm-c0"@);
            reveal_strlit("bm-c1");
            assert("bm-c3"@[4] == '3' && "bm-c1"@[4] == '1');
            assert("bm-c3"@ != "bm-c1"@);
            reveal_strlit("bm-c2");
            assert("bm-c3"@[4] == '3' && "bm-c2"@[4] == '2');
            assert("bm-c3"@ != "bm-c2"@);
            lemma_ascii_lower_unchanged("bm-c3"@);
        },
        ExperimentId::BmC4 => {
            reveal_strlit("bm-c4");
            reveal_strlit("bm-c0");
            assert("bm-c4"@[4] == '4' && "bm-c0"@[4] == '0');
            assert("bm-c4"@ != "bm-c0"@);
            reveal_strlit("bm-c1");
            assert("bm-c4"@[4] == '4' && "bm-c1"@[4] == '1');
            assert("bm-c4"@ != "bm-c1"@);
            reveal_strlit("bm-c2");
            assert("bm-c4"@[4] == '4' && "bm-c2"@[4] == '2');
            assert("bm-c4"@ != "bm-c2"@);
            reveal_strlit("bm-c3");
            assert("bm-c4"@[4] == '4' && "bm-c3"@[4] == '3');
            assert("bm-c4"@ != "bm-c3"@);
            lemma_ascii_lower_unchanged("bm-c4"@);
        },
        ExperimentId::BmC5 => {
            reveal_strlit("bm-c5");
            reveal_strlit("bm-c0");
            assert("bm-c5"@[4] == '5' && "bm-c0"@[4] == '0');
            assert("bm-c5"@ != "bm-c0"@);
            reveal_strlit("bm-c1");
            assert("bm-c5"@[4] == '5' && "bm-c1"@[4] == '1');
            assert("bm-c5"@ != "bm-c1"@);
            reveal_strlit("bm-c2");
            assert("bm-c5"@[4] == '5' && "bm-c2"@[4] == '2');
            assert("bm-c5"@ != "bm-c2"@);
            reveal_strlit("bm-c3");
            assert("bm-c5"@[4] == '5' && "bm-c3"@[4] == '3');
            assert("bm-c5"@ != "bm-c3"@);
            reveal_strlit("bm-c4");
            assert("bm-c5"@[4] == '5' && "bm-c4"@[4] == '4');
            assert("bm-c5"@ != "bm-c4"@);
            lemma_ascii_lower_unchanged("bm-c5"@);
        },
        ExperimentId::BmC6 => {
            reveal_strlit("bm-c6");
            reveal_strlit("bm-c0");
            assert("bm-c6"@[4] == '6' && "bm-c0"@[4] == '0');
            assert("bm-c6"@ != "bm-c0"@);
            reveal_strlit("bm-c1");
            assert("bm-c6"@[4] == '6' && "bm-c1"@[4] == '1');
            assert("bm-c6"@ != "bm-c1"@);
            reveal_strlit("bm-c2");
            assert("bm-c6"@[4] == '6' && "bm-c2"@[4] == '2');
            assert("bm-c6"@ != "bm-c2"@);
            reveal_strlit("bm-c3");
            assert("bm-c6"@[4] == '6' && "bm-c3"@[4] == '3');
            assert("bm-c6"@ != "bm-c3"@);
            reveal_strlit("bm-c4");
            assert("bm-c6"@[4] == '6' && "bm-c4"@[4] == '4');
            assert("bm-c6"@ != "bm-c4"@);
            reveal_strlit("bm-c5");
            assert("bm-c6"@[4] == '6' && "bm-c5"@[4] == '5');
            assert("bm-c6"@ != "bm-c5"@);
            lemma_ascii_lower_unchanged("bm-c6"@);
        },
        ExperimentId::BmL0 => {
            reveal_strlit("bm-l0");
            reveal_strlit("bm-c0");
            assert("bm-l0"@[3] == 'l' && "bm-c0"@[3] == 'c');
            assert("bm-l0"@ != "bm-c0"@);
            reveal_strlit("bm-c1");
            assert("bm-l0"@[3] == 'l' && "bm-c1"@[3] == 'c');
            assert("bm-l0"@ != "bm-c1"@);
            reveal_strlit("bm-c2");
            assert("bm-l0"@[3] == 'l' && "bm-c2"@[3] == 'c');
            assert("bm-l0"@ != "bm-c2"@);
            reveal_strlit("bm-c3");
            assert("bm-l0"@[3] == 'l' && "bm-c3"@[3] == 'c');
            assert("bm-l0"@ != "bm-c3"@);
            reveal_strlit("bm-c4");
            assert("bm-l0"@[3] == 'l' && "bm-c4"@[3] == 'c');
            assert("bm-l0"@ != "bm-c4"@);
            reveal_strlit("bm-c5");
            assert("bm-l0"@[3] == 'l' && "bm-c5"@[3] == 'c');
            assert("bm-l0"@ != "bm-c5"@);
            reveal_strlit("bm-c6");
            assert("bm-l0"@[3] == 'l' && "bm-c6"@[3] == 'c');
            assert("bm-l0"@ != "bm-c6"@);
            lemma_ascii_lower_unchanged("bm-l0"@);
        },
        ExperimentId::BmL1 => {
            reveal_strlit("bm-l1");
            reveal_strlit("bm-c0");
            assert("bm-l1"@[3] == 'l' && "bm-c0"@[3] == 'c');
            assert("bm-l1"@ != "bm-c0"@);
            reveal_strlit("bm-c1");
            assert("bm-l1"@[3] == 'l' && "bm-c1"@[3] == 'c');
            assert("bm-l1"@ != "bm-c1"@);
            reveal_strlit("bm-c2");
            assert("bm-l1"@[3] == 'l' && "bm-c2"@[3] == 'c');
            assert("bm-l1"@ != "bm-c2"@);
            reveal_strlit("bm-c3");
            assert("bm-l1"@[3] == 'l' && "bm-c3"@[3] == 'c');
            assert("bm-l1"@ != "bm-c3"@);
            reveal_strlit("bm-c4");
            assert("bm-l1"@[3] == 'l' && "bm-c4"@[3] == 'c');
            assert("bm-l1"@ != "bm-c4"@);
            reveal_strlit("bm-c5");
            assert("bm-l1"@[3] == 'l' && "bm-c5"@[3] == 'c');
            assert("bm-l1"@ != "bm-c5"@);
            reveal_strlit("bm-c6");
            assert("bm-l1"@[3] == 'l' && "bm-c6"@[3] == 'c');
            assert("bm-l1"@ != "bm-c6"@);
            reveal_strlit("bm-l0");
            assert("bm-l1"@[4] == '1' && "bm-l0"@[4] == '0');
            assert("bm-l1"@ != "bm-l0"@);
            lemma_ascii_lower_unchanged("bm-l1"@);
        },
        ExperimentId::BmL2 => {
            reveal_strlit("bm-l2");
            reveal_strlit("bm-c0");
            assert("bm-l2"@[3] == 'l' && "bm-c0"@[3] == 'c');
            assert("bm-l2"@ != "bm-c0"@);
            reveal_strlit("bm-c1");
            assert("bm-l2"@[3] == 'l' && "bm-c1"@[3] == 'c');
            assert("bm-l2"@ != "bm-c1"@);
            reveal_strlit("bm-c2");
            assert("bm-l2"@[3] == 'l' && "bm-c2"@[3] == 'c');
            assert("bm-l2"@ != "bm-c2"@);
            reveal_strlit("bm-c3");
            assert("bm-l2"@[3] == 'l' && "bm-c3"@[3] == 'c');
            assert("bm-l2"@ != "bm-c3"@);
            reveal_strlit("bm-c4");
            assert("bm-l2"@[3] == 'l' && "bm-c4"@[3] == 'c');
            assert("bm-l2"@ != "bm-c4"@);
            reveal_strlit("bm-c5");
            assert("bm-l2"@[3] == 'l' && "bm-c5"@[3] == 'c');
            assert("bm-l2"@ != "bm-c5"@);
            reveal_strlit("bm-c6");
            assert("bm-l2"@[3] == 'l' && "bm-c6"@[3] == 'c');
            assert("bm-l2"@ != "bm-c6"@);
            reveal_strlit("bm-l0");
            assert("bm-l2"@[4] == '2' && "bm-l0"@[4] == '0');
            assert("bm-l2"@ != "bm-l0"@);
            reveal_strlit("bm-l1");
            assert("bm-l2"@[4] == '2' && "bm-l1"@[4] == '1');
            assert("bm-l2"@ != "bm-l1"@);
            lemma_ascii_lower_unchanged("bm-l2"@);
        },
        ExperimentId::BmL3 => {
            reveal_strlit("bm-l3");
            reveal_strlit("bm-c0");
            assert("bm-l3"@[3] == 'l' && "bm-c0"@[3] == 'c');
            assert("bm-l3"@ != "bm-c0"@);
            reveal_strlit("bm-c1");
            assert("bm-l3"@[3] == 'l' && "bm-c1"@[3] == 'c');
            assert("bm-l3"@ != "bm-c1"@);
            reveal_strlit("bm-c2");
            assert("bm-l3"@[3] == 'l' && "bm-c2"@[3] == 'c');
            assert("bm-l3"@ != "bm-c2"@);
            reveal_strlit("bm-c3");
            assert("bm-l3"@[3] == 'l' && "bm-c3"@[3] == 'c');
            assert("bm-l3"@ != "bm-c3"@);
            reveal_strlit("bm-c4");
            assert("bm-l3"@[3] == 'l' && "bm-c4"@[3] == 'c');
            assert("bm-l3"@ != "bm-c4"@);
            reveal_strlit("bm-c5");
            assert("bm-l3"@[3] == 'l' && "bm-c5"@[3] == 'c');
            assert("bm-l3"@ != "bm-c5"@);
            reveal_strlit("bm-c6");
            assert("bm-l3"@[3] == 'l' && "bm-c6"@[3] == 'c');
            assert("bm-l3"@ != "bm-c6"@);
            reveal_strlit("bm-l0");
            assert("bm-l3"@[4] == '3' && "bm-l0"@[4] == '0');
            assert("bm-l3"@ != "bm-l0"@);
            reveal_strlit("bm-l1");
            assert("bm-l3"@[4] == '3' && "bm-l1"@[4] == '1');
            assert("bm-l3"@ != "bm-l1"@);
            reveal_strlit("bm-l2");
            assert("bm-l3"@[4] == '3' && "bm-l2"@[4] == '2');
            assert("bm-l3"@ != "bm-l2"@);
            lemma_ascii_lower_unchanged("bm-l3"@);
        },
        ExperimentId::BmP1 => {
            reveal_strlit("bm-p1");
            reveal_strlit("bm-c0");
            assert("bm-p1"@[3] == 'p' && "bm-c0"@[3] == 'c');
            assert("bm-p1"@ != "bm-c0"@);
            reveal_strlit("bm-c1");
            assert("bm-p1"@[3] == 'p' && "bm-c1"@[3] == 'c');
            assert("bm-p1"@ != "bm-c1"@);
            reveal_strlit("bm-c2");
            assert("bm-p1"@[3] == 'p' && "bm-c2"@[3] == 'c');
            assert("bm-p1"@ != "bm-c2"@);
            reveal_strlit("bm-c3");
            assert("bm-p1"@[3] == 'p' && "bm-c3"@[3] == 'c');
            assert("bm-p1"@ != "bm-c3"@);
            reveal_strlit("bm-c4");
            assert("bm-p1"@[3] == 'p' && "bm-c4"@[3] == 'c');
            assert("bm-p1"@ != "bm-c4"@);
            reveal_strlit("bm-c5");
            assert("bm-p1"@[3] == 'p' && "bm-c5"@[3] == 'c');
            assert("bm-p1"@ != "bm-c5"@);
            reveal_strlit("bm-c6");
            assert("bm-p1"@[3] == 'p' && "bm-c6"@[3] == 'c');
            assert("bm-p1"@ != "bm-c6"@);
            reveal_strlit("bm-l0");
            assert("bm-p1"@[3] == 'p' && "bm-l0"@[3] == 'l');
            assert("bm-p1"@ != "bm-l0"@);
            reveal_strlit("bm-l1");
            assert("bm-p1"@[3] == 'p' && "bm-l1"@[3] == 'l');
            assert("bm-p1"@ != "bm-l1"@);
            reveal_strlit("bm-l2");
            assert("bm-p1"@[3] == 'p' && "bm-l2"@[3] == 'l');
            assert("bm-p1"@ != "bm-l2"@);
            reveal_strlit("bm-l3");
            assert("bm-p1"@[3] == 'p' && "bm-l3"@[3] == 'l');
            assert("bm-p1"@ != "bm-l3"@);
            lemma_ascii_lower_unchanged("bm-p1"@);
        },
        ExperimentId::BmP2 => {
            reveal_strlit("bm-p2");
            reveal_strlit("bm-c0");
            assert("bm-p2"@[3] == 'p' && "bm-c0"@[3] == 'c');
            assert("bm-p2"@ != "bm-c0"@);
            reveal_strlit("bm-c1");
            assert("bm-p2"@[3] == 'p' && "bm-c1"@[3] == 'c');
            assert("bm-p2"@ != "bm-c1"@);
            reveal_strlit("bm-c2");
            assert("bm-p2"@[3] == 'p' && "bm-c2"@[3] == 'c');
            assert("bm-p2"@ != "bm-c2"@);
            reveal_strlit("bm-c3");
            assert("bm-p2"@[3] == 'p' && "bm-c3"@[3] == 'c');
            assert("bm-p2"@ != "bm-c3"@);
            reveal_strlit("bm-c4");
            assert("bm-p2"@[3] == 'p' && "bm-c4"@[3] == 'c');
            assert("bm-p2"@ != "bm-c4"@);
            reveal_strlit("bm-c5");
            assert("bm-p2"@[3] == 'p' && "bm-c5"@[3] == 'c');
            assert("bm-p2"@ != "bm-c5"@);
            reveal_strlit("bm-c6");
            assert("bm-p2"@[3] == 'p' && "bm-c6"@[3] == 'c');
            assert("bm-p2"@ != "bm-c6"@);
            reveal_strlit("bm-l0");
            assert("bm-p2"@[3] == 'p' && "bm-l0"@[3] == 'l');
            assert("bm-p2"@ != "bm-l0"@);
            reveal_strlit("bm-l1");
            assert("bm-p2"@[3] == 'p' && "bm-l1"@[3] == 'l');
            assert("bm-p2"@ != "bm-l1"@);
            reveal_strlit("bm-l2");
            assert("bm-p2"@[3] == 'p' && "bm-l2"@[3] == 'l');
            assert("bm-p2"@ != "bm-l2"@);
            reveal_strlit("bm-l3");
            assert("bm-p2"@[3] == 'p' && "bm-l3"@[3] == 'l');
            assert("bm-p2"@ != "bm-l3"@);
            reveal_strlit("bm-p1");
            assert("bm-p2"@[4] == '2' && "bm-p1"@[4] == '1');
            assert("bm-p2"@ != "bm-p1"@);
            lemma_ascii_lower_unchanged("bm-p2"@);
        },
        ExperimentId::BmM1 => {
            reveal_strlit("bm-m1");
            reveal_strlit("bm-c0");
            assert("bm-m1"@[3] == 'm' && "bm-c0"@[3] == 'c');
            assert("bm-m1"@ != "bm-c0"@);
            reveal_strlit("bm-c1");
            assert("bm-m1"@[3] == 'm' && "bm-c1"@[3] == 'c');
            assert("bm-m1"@ != "bm-c1"@);
            reveal_strlit("bm-c2");
            assert("bm-m1"@[3] == 'm' && "bm-c2"@[3] == 'c');
            assert("bm-m1"@ != "bm-c2"@);
            reveal_strlit("bm-c3");
            assert("bm-m1"@[3] == 'm' && "bm-c3"@[3] == 'c');
            assert("bm-m1"@ != "bm-c3"@);
            reveal_strlit("bm-c4");
            assert("bm-m1"@[3] == 'm' && "bm-c4"@[3] == 'c');
            assert("bm-m1"@ != "bm-c4"@);
            reveal_strlit("bm-c5");
            assert("bm-m1"@[3] == 'm' && "bm-c5"@[3] == 'c');
            assert("bm-m1"@ != "bm-c5"@);
            reveal_strlit("bm-c6");
            assert("bm-m1"@[3] == 'm' && "bm-c6"@[3] == 'c');
            assert("bm-m1"@ != "bm-c6"@);
            reveal_strlit("bm-l0");
            assert("bm-m1"@[3] == 'm' && "bm-l0"@[3] == 'l');
            assert("bm-m1"@ != "bm-l0"@);
            reveal_strlit("bm-l1");
            assert("bm-m1"@[3] == 'm' && "bm-l1"@[3] == 'l');
            assert("bm-m1"@ != "bm-l1"@);
            reveal_strlit("bm-l2");
            assert("bm-m1"@[3] == 'm' && "bm-l2"@[3] == 'l');
            assert("bm-m1"@ != "bm-l2"@);
            reveal_strlit("bm-l3");
            assert("bm-m1"@[3] == 'm' && "bm-l3"@[3] == 'l');
            assert("bm-m1"@ != "bm-l3"@);
            reveal_strlit("bm-p1");
            assert("bm-m1"@[3] == 'm' && "bm-p1"@[3] == 'p');
            assert("bm-m1"@ != "bm-p1"@);
            reveal_strlit("bm-p2");
            assert("bm-m1"@[3] == 'm' && "bm-p2"@[3] == 'p');
            assert("bm-m1"@ != "bm-p2"@);
            lemma_ascii_lower_unchanged("bm-m1"@);
        },
        ExperimentId::BmM2 => {
            reveal_strlit("bm-m2");
            reveal_strlit("bm-c0");
            assert("bm-m2"@[3] == 'm' && "bm-c0"@[3] == 'c');
            assert("bm-m2"@ != "bm-c0"@);
            reveal_strlit("bm-c1");
            assert("bm-m2"@[3] == 'm' && "bm-c1"@[3] == 'c');
            assert("bm-m2"@ != "bm-c1"@);
            reveal_strlit("bm-c2");
            assert("bm-m2"@[3] == 'm' && "bm-c2"@[3] == 'c');
            assert("bm-m2"@ != "bm-c2"@);
            reveal_strlit("bm-c3");
            assert("bm-m2"@[3] == 'm' && "bm-c3"@[3] == 'c');
            assert("bm-m2"@ != "bm-c3"@);
            reveal_strlit("bm-c4");
            assert("bm-m2"@[3] == 'm' && "bm-c4"@[3] == 'c');
            assert("bm-m2"@ != "bm-c4"@);
            reveal_strlit("bm-c5");
            assert("bm-m2"@[3] == 'm' && "bm-c5"@[3] == 'c');
            assert("bm-m2"@ != "bm-c5"@);
            reveal_strlit("bm-c6");
            assert("bm-m2"@[3] == 'm' && "bm-c6"@[3] == 'c');
            assert("bm-m2"@ != "bm-c6"@);
            reveal_strlit("bm-l0");
            assert("bm-m2"@[3] == 'm' && "bm-l0"@[3] == 'l');
            assert("bm-m2"@ != "bm-l0"@);
            reveal_strlit("bm-l1");
            assert("bm-m2"@[3] == 'm' && "bm-l1"@[3] == 'l');
            assert("bm-m2"@ != "bm-l1"@);
            reveal_strlit("bm-l2");
            assert("bm-m2"@[3] == 'm' && "bm-l2"@[3] == 'l');
            assert("bm-m2"@ != "bm-l2"@);
            reveal_strlit("bm-l3");
            assert("bm-m2"@[3] == 'm' && "bm-l3"@[3] == 'l');
            assert("bm-m2"@ != "bm-l3"@);
            reveal_strlit("bm-p1");
            assert("bm-m2"@[3] == 'm' && "bm-p1"@[3] == 'p');
            assert("bm-m2"@ != "bm-p1"@);
            reveal_strlit("bm-p2");
            assert("bm-m2"@[3] == 'm' && "bm-p2"@[3] == 'p');
            assert("bm-m2"@ != "bm-p2"@);
            reveal_strlit("bm-m1");
            assert("bm-m2"@[4] == '2' && "bm-m1"@[4] == '1');
            assert("bm-m2"@ != "bm-m1"@);
            lemma_ascii_lower_unchanged("bm-m2"@);
        },
        ExperimentId::BmM3 => {
            reveal_strlit("bm-m3");
            reveal_strlit("bm-c0");
            assert("bm-m3"@[3] == 'm' && "bm-c0"@[3] == 'c');
            assert("bm-m3"@ != "bm-c0"@);
            reveal_strlit("bm-c1");
            assert("bm-m3"@[3] == 'm' && "bm-c1"@[3] == 'c');
            assert("bm-m3"@ != "bm-c1"@);
            reveal_strlit("bm-c2");
            assert("bm-m3"@[3] == 'm' && "bm-c2"@[3] == 'c');
            assert("bm-m3"@ != "bm-c2"@);
            reveal_strlit("bm-c3");
            assert("bm-m3"@[3] == 'm' && "bm-c3"@[3] == 'c');
            assert("bm-m3"@ != "bm-c3"@);
            reveal_strlit("bm-c4");
            assert("bm-m3"@[3] == 'm' && "bm-c4"@[3] == 'c');
            assert("bm-m3"@ != "bm-c4"@);
            reveal_strlit("bm-c5");
            assert("bm-m3"@[3] == 'm' && "bm-c5"@[3] == 'c');
            assert("bm-m3"@ != "bm-c5"@);
            reveal_strlit("bm-c6");
            assert("bm-m3"@[3] == 'm' && "bm-c6"@[3] == 'c');
            assert("bm-m3"@ != "bm-c6"@);
            reveal_strlit("bm-l0");
            assert("bm-m3"@[3] == 'm' && "bm-l0"@[3] == 'l');
            assert("bm-m3"@ != "bm-l0"@);
            reveal_strlit("bm-l1");
            assert("bm-m3"@[3] == 'm' && "bm-l1"@[3] == 'l');
            assert("bm-m3"@ != "bm-l1"@);
            reveal_strlit("bm-l2");
            assert("bm-m3"@[3] == 'm' && "bm-l2"@[3] == 'l');
            assert("bm-m3"@ != "bm-l2"@);
            reveal_strlit("bm-l3");
            assert("bm-m3"@[3] == 'm' && "bm-l3"@[3] == 'l');
            assert("bm-m3"@ != "bm-l3"@);
            reveal_strlit("bm-p1");
            assert("bm-m3"@[3] == 'm' && "bm-p1"@[3] == 'p');
            assert("bm-m3"@ != "bm-p1"@);
            reveal_strlit("bm-p2");
            assert("bm-m3"@[3] == 'm' && "bm-p2"@[3] == 'p');
            assert("bm-m3"@ != "bm-p2"@);
            reveal_strlit("bm-m1");
            assert("bm-m3"@[4] == '3' && "bm-m1"@[4] == '1');
            assert("bm-m3"@ != "bm-m1"@);
            reveal_strlit("bm-m2");
            assert("bm-m3"@[4] == '3' && "bm-m2"@[4] == '2');
            assert("bm-m3"@ != "bm-m2"@);
            lemma_ascii_lower_unchanged("bm-m3"@);
        },
        ExperimentId::BmM4 => {
            reveal_strlit("bm-m4");
            reveal_strlit("bm-c0");
            assert("bm-m4"@[3] == 'm' && "bm-c0"@[3] == 'c');
            assert("bm-m4"@ != "bm-c0"@);
            reveal_strlit("bm-c1");
            assert("bm-m4"@[3] == 'm' && "bm-c1"@[3] == 'c');
            assert("bm-m4"@ != "bm-c1"@);
            reveal_strlit("bm-c2");
            assert("bm-m4"@[3] == 'm' && "bm-c2"@[3] == 'c');
            assert("bm-m4"@ != "bm-c2"@);
            reveal_strlit("bm-c3");
            assert("bm-m4"@[3] == 'm' && "bm-c3"@[3] == 'c');
            assert("bm-m4"@ != "bm-c3"@);
            reveal_strlit("bm-c4");
            assert("bm-m4"@[3] == 'm' && "bm-c4"@[3] == 'c');
            assert("bm-m4"@ != "bm-c4"@);
            reveal_strlit("bm-c5");
            assert("bm-m4"@[3] == 'm' && "bm-c5"@[3] == 'c');
            assert("bm-m4"@ != "bm-c5"@);
            reveal_strlit("bm-c6");
            assert("bm-m4"@[3] == 'm' && "bm-c6"@[3] == 'c');
            assert("bm-m4"@ != "bm-c6"@);
            reveal_strlit("bm-l0");
            assert("bm-m4"@[3] == 'm' && "bm-l0"@[3] == 'l');
            assert("bm-m4"@ != "bm-l0"@);
            reveal_strlit("bm-l1");
            assert("bm-m4"@[3] == 'm' && "bm-l1"@[3] == 'l');
            assert("bm-m4"@ != "bm-l1"@);
            reveal_strlit("bm-l2");
            assert("bm-m4"@[3] == 'm' && "bm-l2"@[3] == 'l');
            assert("bm-m4"@ != "bm-l2"@);
            reveal_strlit("bm-l3");
            assert("bm-m4"@[3] == 'm' && "bm-l3"@[3] == 'l');
            assert("bm-m4"@ != "bm-l3"@);
            reveal_strlit("bm-p1");
            assert("bm-m4"@[3] == 'm' && "bm-p1"@[3] == 'p');
            assert("bm-m4"@ != "bm-p1"@);
            reveal_strlit("bm-p2");
            assert("bm-m4"@[3] == 'm' && "bm-p2"@[3] == 'p');
            assert("bm-m4"@ != "bm-p2"@);
            reveal_strlit("bm-m1");
            assert("bm-m4"@[4] == '4' && "bm-m1"@[4] == '1');
            assert("bm-m4"@ != "bm-m1"@);
            reveal_strlit("bm-m2");
            assert("bm-m4"@[4] == '4' && "bm-m2"@[4] == '2');
            assert("bm-m4"@ != "bm-m2"@);
            reveal_strlit("bm-m3");
            assert("bm-m4"@[4] == '4' && "bm-m3"@[4] == '3');
            assert("bm-m4"@ != "bm-m3"@);
            lemma_ascii_lower_unchanged("bm-m4"@);
        },
        ExperimentId::BmM5 => {
            reveal_strlit("bm-m5");
            reveal_strlit("bm-c0");
            assert("bm-m5"@[3] == 'm' && "bm-c0"@[3] == 'c');
            assert("bm-m5"@ != "bm-c0"@);
            reveal_strlit("bm-c1");
            assert("bm-m5"@[3] == 'm' && "bm-c1"@[3] == 'c');
            assert("bm-m5"@ != "bm-c1"@);
            reveal_strlit("bm-c2");
            assert("bm-m5"@[3] == 'm' && "bm-c2"@[3] == 'c');
            assert("bm-m5"@ != "bm-c2"@);
            reveal_strlit("bm-c3");
            assert("bm-m5"@[3] == 'm' && "bm-c3"@[3] == 'c');
            assert("bm-m5"@ != "bm-c3"@);
            reveal_strlit("bm-c4");
            assert("bm-m5"@[3] == 'm' && "bm-c4"@[3] == 'c');
            assert("bm-m5"@ != "bm-c4"@);
            reveal_strlit("bm-c5");
            assert("bm-m5"@[3] == 'm' && "bm-c5"@[3] == 'c');
            assert("bm-m5"@ != "bm-c5"@);
            reveal_strlit("bm-c6");
            assert("bm-m5"@[3] == 'm' && "bm-c6"@[3] == 'c');
            assert("bm-m5"@ != "bm-c6"@);
            reveal_strlit("bm-l0");
            assert("bm-m5"@[3] == 'm' && "bm-l0"@[3] == 'l');
            assert("bm-m5"@ != "bm-l0"@);
            reveal_strlit("bm-l1");
            assert("bm-m5"@[3] == 'm' && "bm-l1"@[3] == 'l');
            assert("bm-m5"@ != "bm-l1"@);
            reveal_strlit("bm-l2");
            assert("bm-m5"@[3] == 'm' && "bm-l2"@[3] == 'l');
            assert("bm-m5"@ != "bm-l2"@);
            reveal_strlit("bm-l3");
            assert("bm-m5"@[3] == 'm' && "bm-l3"@[3] == 'l');
            assert("bm-m5"@ != "bm-l3"@);
            reveal_strlit("bm-p1");
            assert("bm-m5"@[3] == 'm' && "bm-p1"@[3] == 'p');
            assert("bm-m5"@ != "bm-p1"@);
            reveal_strlit("bm-p2");
            assert("bm-m5"@[3] == 'm' && "bm-p2"@[3] == 'p');
            assert("bm-m5"@ != "bm-p2"@);
            reveal_strlit("bm-m1");
            assert("bm-m5"@[4] == '5' && "bm-m1"@[4] == '1');
            assert("bm-m5"@ != "bm-m1"@);
            reveal_strlit("bm-m2");
            assert("bm-m5"@[4] == '5' && "bm-m2"@[4] == '2');
            assert("bm-m5"@ != "bm-m2"@);
            reveal_strlit("bm-m3");
            assert("bm-m5"@[4] == '5' && "bm-m3"@[4] == '3');
            assert("bm-m5"@ != "bm-m3"@);
            reveal_strlit("bm-m4");
            assert("bm-m5"@[4] == '5' && "bm-m4"@[4] == '4');
            assert("bm-m5"@ != "bm-m4"@);
            lemma_ascii_lower_unchanged("bm-m5"@);
        },
    }
}
/// Per-component hardware profile labels captured in reports.
pub struct ComponentHardware {
    pub runtime: String,
    pub surreal: Option<String>,
    pub tikv: Option<String>,
}

impl ComponentHardware {
    /// Component hardware of a run: the runtime profile's slug, and for Surreal
    /// and `TiKV` the profile named by their environment variables
    /// (`CONTINUUM_BENCH_SURREAL_HARDWARE`, `CONTINUUM_BENCH_TIKV_HARDWARE`),
    /// the runtime's otherwise.
    pub fn from_run(hardware: Hardware, surreal_env: Option<String>, tikv_env: Option<String>) -> (c: Self)
        ensures
            c.runtime@ == hardware_slug(hardware),
            c.surreal matches Some(s) && s@ == match surreal_env {
                Some(e) => e@,
                None => hardware_slug(hardware),
            },
            c.tikv matches Some(t) && t@ == match tikv_env {
                Some(e) => e@,
                None => hardware_slug(hardware),
            },
    {
        let runtime = owned(hardware.slug());
        let surreal = match surreal_env {
            Some(e) => e,
            None => owned(hardware.slug()),
        };
        let tikv = match tikv_env {
            Some(e) => e,
            None => owned(hardware.slug()),
        };
        ComponentHardware { runtime, surreal: Some(surreal), tikv: Some(tikv) }
    }
}

/// A count read from an environment variable: the value parsed as an
/// unsigned integer no larger than `max`, if it is one.
pub open spec fn env_count(value: Option<Seq<char>>, max: nat) -> Option<nat> {
    match value {
        Some(v) => parse_uint_spec(v, max),
        None => None,
    }
}

/// View of an optional string slice.
pub open spec fn opt_text(value: Option<&str>) -> Option<Seq<char>> {
    match value {
        Some(v) => Some(v@),
        None => None,
    }
}

/// Surreal instance count from the value of `CONTINUUM_BENCH_SURREAL_INSTANCES`
/// (a `u8`; 1 when unset or not a number).
pub fn surreal_instances_from_env(value: Option<&str>) -> (n: u8)
    ensures
        n == match env_count(opt_text(value), 255) {
            Some(k) => k,
            None => 1,
        },
{
    match value {
        Some(v) => match parse_uint(v, 255) {
            Some(k) => {
                k as u8
            },
            None => 1,
        },
        None => 1,
    }
}

/// Partition count for load tests from the value of
/// `CONTINUUM_BENCH_LOAD_PARTITION_COUNT`: a `usize` of at least 1, else 1
/// (a hot stream).
pub fn load_partition_count(value: Option<&str>) -> (k: usize)
    ensures
        k == match env_count(opt_text(value), usize::MAX as nat) {
            Some(n) => if n >= 1 { n } else { 1 },
            None => 1,
        },
        k >= 1,
{
    match value {
        Some(v) => match parse_uint(v, usize::MAX as u64) {
            Some(n) => {
                if n >= 1 { n as usize } else { 1 }
            },
            None => 1,
        },
        None => 1,
    }
}

/// Full dimension set for one benchmark run.
#[derive(Clone, Copy, Debug, PartialEq, Eq, Hash, Structural)]
pub struct RunDimensions {
    pub storage: Storage,
    pub topology: Topology,
    pub telemetry: Telemetry,
    pub hardware: Hardware,
    pub tikv_topology: Option<TikvTopology>,
    pub scylla_topology: Option<ScyllaTopology>,
    pub surreal_deployment: Option<SurrealDeployment>,
    pub surreal_instances: u8,
}

/// Isolated-lab dimensions with the cluster fields unset.
pub open spec fn isolated_spec(storage: Storage, telemetry: Telemetry, hardware: Hardware) -> RunDimensions {
    RunDimensions {
        storage,
        topology: Topology::IsolatedLab,
        telemetry,
        hardware,
        tikv_topology: None,
        scylla_topology: None,
        surreal_deployment: None,
        surreal_instances: 1,
    }
}

/// Remote Surreal-on-`TiKV` dimensions.
pub open spec fn remote_surreal_tikv_spec(
    hardware: Hardware,
    tikv_topology: TikvTopology,
    surreal_deployment: SurrealDeployment,
    surreal_instances: u8,
) -> RunDimensions {
    RunDimensions {
        storage: Storage::SurrealTikv,
        topology: Topology::RemoteSurreal,
        telemetry: Telemetry::Off,
        hardware,
        tikv_topology: Some(tikv_topology),
        scylla_topology: None,
        surreal_deployment: Some(surreal_deployment),
        surreal_instances,
    }
}

impl RunDimensions {
    /// Build isolated-lab dimensions with default `TiKV` fields unset.
    pub fn isolated(storage: Storage, telemetry: Telemetry, hardware: Hardware) -> (d: Self)
        ensures
            d == isolated_spec(storage, telemetry, hardware),
    {
        RunDimensions {
            storage,
            topology: Topology::IsolatedLab,
            telemetry,
            hardware,
            tikv_topology: None,
            scylla_topology: None,
            surreal_deployment: None,
            surreal_instances: 1,
        }
    }

    /// Build remote-surreal / surreal-tikv dimensions for distributed campaigns.
    pub fn remote_surreal_tikv(
        hardware: Hardware,
        tikv_topology: TikvTopology,
        surreal_deployment: SurrealDeployment,
        surreal_instances: u8,
    ) -> (d: Self)
        ensures
            d == remote_surreal_tikv_spec(hardware, tikv_topology, surreal_deployment, surreal_instances),
    {
        RunDimensions {
            storage: Storage::SurrealTikv,
            topology: Topology::RemoteSurreal,
            telemetry: Telemetry::Off,
            hardware,
            tikv_topology: Some(tikv_topology),
            scylla_topology: None,
            surreal_deployment: Some(surreal_deployment),
            surreal_instances,
        }
    }

    /// Whether this run needs a live remote Surreal stack.
    pub fn needs_remote_surreal(self) -> (r: bool)
        ensures
            r == (self.storage == Storage::SurrealTikv || self.topology == Topology::RemoteSurreal),
    {
        self.storage.needs_remote_surreal() || self.topology == Topology::RemoteSurreal
    }

    /// Whether this run needs a live Scylla cluster.
    pub fn needs_remote_scylla(self) -> (r: bool)
        ensures
            r == (self.storage == Storage::Scylla),
    {
        self.storage.needs_remote_scylla()
    }

    /// Whether this run needs a live `TiKV` PD endpoint (raw client).
    pub fn needs_remote_tikv_raw(self) -> (r: bool)
        ensures
            r == (self.storage == Storage::TikvRaw),
    {
        self.storage.needs_remote_tikv_raw()
    }
}

/// Dimensions of a single `run` from the command line: a Surreal-on-`TiKV`
/// storage always runs as a colocated remote stack (on the given preset, else
/// the one from the environment, else the minimal one, with the instance
/// count from the environment); any other storage runs isolated under the
/// given topology.
pub fn build_run_dimensions(
    storage: Storage,
    topology: Topology,
    telemetry: Telemetry,
    hardware: Hardware,
    tikv_topology: Option<TikvTopology>,
    env_tikv_topology: Option<TikvTopology>,
    env_surreal_instances: u8,
) -> (d: RunDimensions)
    ensures
        storage == Storage::SurrealTikv ==> d == remote_surreal_tikv_spec(
            hardware,
            match tikv_topology {
                Some(t) => t,
                None => match env_tikv_topology {
                    Some(t) => t,
                    None => TikvTopology::Minimal,
                },
            },
            SurrealDeployment::Colocated,
            env_surreal_instances,
        ),
        storage != Storage::SurrealTikv ==> d == (RunDimensions {
            topology,
            ..isolated_spec(storage, telemetry, hardware)
        }),
{
    if storage == Storage::SurrealTikv {
        let topo = match tikv_topology {
            Some(t) => t,
            None => match env_tikv_topology {
                Some(t) => t,
                None => TikvTopology::Minimal,
            },
        };
        return RunDimensions::remote_surreal_tikv(hardware, topo, SurrealDeployment::Colocated, env_surreal_instances);
    }
    let mut dims = RunDimensions::isolated(storage, telemetry, hardware);
    dims.topology = topology;
    dims
}

/// Each storage streams to the backend kind of its own engine: the kind of
/// Postgres, SQLite, Scylla and raw `TiKV` is named exactly as the storage,
/// the in-memory storage streams to the memory kind and the three Surreal
/// storages to the local Surreal kind. Engines other than Surreal never share
/// a kind.
pub proof fn lemma_backend_kind_engine(storage: Storage, other: Storage)
    ensures
        (storage == Storage::Postgres || storage == Storage::Sqlite || storage == Storage::Scylla
            || storage == Storage::TikvRaw) ==> kind_name(backend_kind_spec(storage)) == storage_slug(storage),
        storage == Storage::Mem ==> backend_kind_spec(storage) == LogBackendKind::Memory,
        (storage == Storage::SurrealMem || storage == Storage::SurrealRocksdb || storage == Storage::SurrealTikv)
            <==> backend_kind_spec(storage) == LogBackendKind::SurrealLocal,
        backend_kind_spec(storage) != LogBackendKind::SurrealLocal && backend_kind_spec(storage) == backend_kind_spec(other)
            ==> storage == other,
{
    reveal_strlit("postgres");
    reveal_strlit("sqlite");
    reveal_strlit("scylla");
    reveal_strlit("tikv-raw");
}

/// Destination kind matching storage for stream construction.
pub open spec fn backend_kind_spec(storage: Storage) -> LogBackendKind {
    match storage {
        Storage::Mem => LogBackendKind::Memory,
        Storage::SurrealMem | Storage::SurrealRocksdb | Storage::SurrealTikv => LogBackendKind::SurrealLocal,
        Storage::Postgres => LogBackendKind::Postgres,
        Storage::Sqlite => LogBackendKind::Sqlite,
        Storage::Scylla => LogBackendKind::Scylla,
        Storage::TikvRaw => LogBackendKind::TikvRaw,
    }
}

/// Destination kind matching storage for stream construction.
pub fn backend_kind(storage: Storage) -> (k: LogBackendKind)
    ensures
        k == backend_kind_spec(storage),
{
    match storage {
        Storage::Mem => LogBackendKind::Memory,
        Storage::SurrealMem | Storage::SurrealRocksdb | Storage::SurrealTikv => LogBackendKind::SurrealLocal,
        Storage::Postgres => LogBackendKind::Postgres,
        Storage::Sqlite => LogBackendKind::Sqlite,
        Storage::Scylla => LogBackendKind::Scylla,
        Storage::TikvRaw => LogBackendKind::TikvRaw,
    }
}

/// Matrix subset selector.
#[derive(Clone, Copy, Debug, PartialEq, Eq, Hash, Structural)]
pub enum MatrixSubset {
    /// Full pre-registered matrix.
    Full,
    /// `SQLite` + Postgres only; telemetry off; excludes BM-C6 soak.
    Sql,
    /// All `TiKV` presets on single host — requires a remote Surreal stack.
    TikvLabColocated,
    /// BM-L1/L2 ceiling probes sweeping `TiKV` topology.
    TikvTopology,
    /// BM-L1/L2 with varying Surreal instance count.
    SurrealScale,
    /// BM-L0–L3 on active `TiKV` topology for fleet projection inputs.
    TikvProjectionInputs,
    /// BM-L0–L3 on native adapters for fleet projection inputs.
    NativeProjectionInputs,
    /// BM-C*/BM-L* parity on scylla + tikv-raw (+ sqlite baseline).
    NativeLab,
    /// BM-M3 concurrency ladder on native adapters (hot stream).
    NativeConcurrency,
    /// BM-P*/BM-M* partition and client sweeps on native adapters.
    NativeScale,
    /// BM-L0–L3 with a load partition count above 1.
    NativeLabPartitioned,
    /// Native projection inputs + scale for the active topology.
    NativeTopology,
}

impl Default for MatrixSubset {
    fn default() -> (s: Self)
        ensures
            s == MatrixSubset::Full,
    {
        MatrixSubset::Full
    }
}

/// Subsets that run on the native adapters.
pub open spec fn native_subset(subset: MatrixSubset) -> bool {
    subset == MatrixSubset::NativeLab || subset == MatrixSubset::NativeLabPartitioned
        || subset == MatrixSubset::NativeScale || subset == MatrixSubset::NativeConcurrency
        || subset == MatrixSubset::NativeProjectionInputs || subset == MatrixSubset::NativeTopology
}

/// Whether a matrix subset requires a remote Scylla cluster.
pub fn subset_needs_remote_scylla(subset: MatrixSubset) -> (r: bool)
    ensures
        r == native_subset(subset),
{
    match subset {
        MatrixSubset::NativeLab | MatrixSubset::NativeLabPartitioned | MatrixSubset::NativeScale
        | MatrixSubset::NativeConcurrency | MatrixSubset::NativeProjectionInputs
        | MatrixSubset::NativeTopology => true,
        _ => false,
    }
}

/// Whether a matrix subset requires a raw `TiKV` PD endpoint.
pub fn subset_needs_remote_tikv_raw(subset: MatrixSubset) -> (r: bool)
    ensures
        r == native_subset(subset),
{
    subset_needs_remote_scylla(subset)
}

/// Whether a matrix subset requires a remote Surreal stack.
pub fn subset_needs_remote_surreal(subset: MatrixSubset) -> (r: bool)
    ensures
        r == (subset == MatrixSubset::TikvLabColocated || subset == MatrixSubset::TikvTopology
            || subset == MatrixSubset::SurrealScale || subset == MatrixSubset::TikvProjectionInputs),
{
    match subset {
        MatrixSubset::TikvLabColocated | MatrixSubset::TikvTopology | MatrixSubset::SurrealScale
        | MatrixSubset::TikvProjectionInputs => true,
        _ => false,
    }
}

} // verus!
