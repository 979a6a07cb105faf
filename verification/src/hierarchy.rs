//! The five-tier key hierarchy and its rules. Permitted parent-to-child
//! control edges are exactly Skull->Master, Master->Repo, Repo->Ignition
//! and Ignition->Distro; skipping tiers is never allowed.

use vstd::prelude::*;

use crate::errors::IgniteError;
use crate::errors::IgniteResult;
use crate::errors::is_invalid_operation;
use crate::text::ascii_lower;
use crate::text::spec_ascii_lower;
use crate::text::str_eq;

verus! {

/// Key types in the authority hierarchy.
#[derive(Debug, Clone, Copy, PartialEq, Eq, Hash, Structural)]
pub enum KeyType {
    /// Ultimate authority, for emergency recovery.
    Skull,
    /// Global authority, for system administration.
    Master,
    /// Local authority, for repository management.
    Repo,
    /// Authority bridge, for automation access.
    Ignition,
    /// Distributed access, for third parties.
    Distro,
}

/// The human-readable description of a tier.
pub open spec fn spec_key_type_description(t: KeyType) -> Seq<char> {
    match t {
        KeyType::Skull => "Skull Key (Ultimate Authority - Emergency Recovery)"@,
        KeyType::Master => "Master Key (Global Authority - System Administration)"@,
        KeyType::Repo => "Repository Key (Local Authority - Repository Management)"@,
        KeyType::Ignition => "Ignition Key (Authority Bridge - Automation Access)"@,
        KeyType::Distro => "Distro Key (Distributed Access - Third Party Access)"@,
    }
}

/// The lowercase canonical name of a key type.
pub open spec fn spec_key_type_name(t: KeyType) -> Seq<char> {
    match t {
        KeyType::Skull => "skull"@,
        KeyType::Master => "master"@,
        KeyType::Repo => "repo"@,
        KeyType::Ignition => "ignition"@,
        KeyType::Distro => "distro"@,
    }
}

/// The four permitted control edges, and nothing else.
pub open spec fn spec_can_control(parent: KeyType, child: KeyType) -> bool {
    ||| (parent == KeyType::Skull && child == KeyType::Master)
    ||| (parent == KeyType::Master && child == KeyType::Repo)
    ||| (parent == KeyType::Repo && child == KeyType::Ignition)
    ||| (parent == KeyType::Ignition && child == KeyType::Distro)
}

/// What a lowercase name or alias parses to, if anything.
pub open spec fn spec_parse_key_type(l: Seq<char>) -> Option<KeyType> {
    if l == "skull"@ || l == "x"@ {
        Some(KeyType::Skull)
    } else if l == "master"@ || l == "m"@ {
        Some(KeyType::Master)
    } else if l == "repo"@ || l == "repository"@ || l == "r"@ {
        Some(KeyType::Repo)
    } else if l == "ignition"@ || l == "i"@ {
        Some(KeyType::Ignition)
    } else if l == "distro"@ || l == "distribution"@ || l == "d"@ {
        Some(KeyType::Distro)
    } else {
        None
    }
}

impl KeyType {
    /// A human-readable description of the tier.
    pub fn description(&self) -> (r: &'static str)
        ensures
            r@ == spec_key_type_description(*self),
    {
        match self {
            KeyType::Skull => "Skull Key (Ultimate Authority - Emergency Recovery)",
            KeyType::Master => "Master Key (Global Authority - System Administration)",
            KeyType::Repo => "Repository Key (Local Authority - Repository Management)",
            KeyType::Ignition => "Ignition Key (Authority Bridge - Automation Access)",
            KeyType::Distro => "Distro Key (Distributed Access - Third Party Access)",
        }
    }

    /// The lowercase canonical name.
    pub fn as_str(&self) -> (r: &'static str)
        ensures
            r@ == spec_key_type_name(*self),
    {
        match self {
            KeyType::Skull => "skull",
            KeyType::Master => "master",
            KeyType::Repo => "repo",
            KeyType::Ignition => "ignition",
            KeyType::Distro => "distro",
        }
    }

    /// Parse a canonical name or single-letter alias, case-insensitively.
    pub fn from_str(s: &str) -> (r: IgniteResult<Self>)
        ensures
            match r {
                Ok(t) => spec_parse_key_type(spec_ascii_lower(s@)) == Some(t),
                Err(e) => spec_parse_key_type(spec_ascii_lower(s@)) is None && is_invalid_operation(
                    e,
                    "parse_key_type"@,
                ),
            },
    {
        let l = ascii_lower(s);
        let ls = l.as_str();
        if str_eq(ls, "skull") || str_eq(ls, "x") {
            Ok(KeyType::Skull)
        } else if str_eq(ls, "master") || str_eq(ls, "m") {
            Ok(KeyType::Master)
        } else if str_eq(ls, "repo") || str_eq(ls, "repository") || str_eq(ls, "r") {
            Ok(KeyType::Repo)
        } else if str_eq(ls, "ignition") || str_eq(ls, "i") {
            Ok(KeyType::Ignition)
        } else if str_eq(ls, "distro") || str_eq(ls, "distribution") || str_eq(ls, "d") {
            Ok(KeyType::Distro)
        } else {
            let mut reason = String::new();
            reason.append("Unknown key type: ");
            reason.append(s);
            Err(IgniteError::InvalidOperation {
                operation: String::from_str("parse_key_type"),
                reason,
            })
        }
    }

    /// True only for the four permitted control edges.
    pub fn can_control(&self, child: KeyType) -> (r: bool)
        ensures
            r == spec_can_control(*self, child),
    {
        match (self, child) {
            (KeyType::Skull, KeyType::Master) => true,
            (KeyType::Master, KeyType::Repo) => true,
            (KeyType::Repo, KeyType::Ignition) => true,
            (KeyType::Ignition, KeyType::Distro) => true,
            _ => false,
        }
    }

    /// The tier entitled to control this one, if any.
    pub fn parent_type(&self) -> (r: Option<KeyType>)
        ensures
            r == match *self {
                KeyType::Skull => Option::<KeyType>::None,
                KeyType::Master => Some(KeyType::Skull),
                KeyType::Repo => Some(KeyType::Master),
                KeyType::Ignition => Some(KeyType::Repo),
                KeyType::Distro => Some(KeyType::Ignition),
            },
            r matches Some(p) ==> spec_can_control(p, *self),
    {
        match self {
            KeyType::Skull => None,
            KeyType::Master => Some(KeyType::Skull),
            KeyType::Repo => Some(KeyType::Master),
            KeyType::Ignition => Some(KeyType::Repo),
            KeyType::Distro => Some(KeyType::Ignition),
        }
    }

    /// The tiers this one is entitled to control.
    pub fn child_types(&self) -> (r: Vec<KeyType>)
        ensures
            r@ == match *self {
                KeyType::Skull => seq![KeyType::Master],
                KeyType::Master => seq![KeyType::Repo],
                KeyType::Repo => seq![KeyType::Ignition],
                KeyType::Ignition => seq![KeyType::Distro],
                KeyType::Distro => Seq::<KeyType>::empty(),
            },
            forall|i: int| 0 <= i < r@.len() ==> spec_can_control(*self, #[trigger] r@[i]),
    {
        match self {
            KeyType::Skull => vec![KeyType::Master],
            KeyType::Master => vec![KeyType::Repo],
            KeyType::Repo => vec![KeyType::Ignition],
            KeyType::Ignition => vec![KeyType::Distro],
            KeyType::Distro => Vec::new(),
        }
    }

    /// The passphrase-wrapped tiers: Skull, Ignition and Distro.
    pub fn is_ignition_key(&self) -> (r: bool)
        ensures
            r == (*self == KeyType::Skull || *self == KeyType::Ignition || *self
                == KeyType::Distro),
    {
        match self {
            KeyType::Skull | KeyType::Ignition | KeyType::Distro => true,
            _ => false,
        }
    }
}

/// Authority levels, ordered from distributed access up to skull authority.
#[derive(Debug, Clone, Copy, PartialEq, Eq, PartialOrd, Ord, Structural)]
pub enum AuthorityLevel {
    /// File read/write access.
    DistroAccess,
    /// Manages distro keys and repository operations.
    IgnitionControl,
    /// Full repository management.
    RepoControl,
    /// Global operations.
    MasterControl,
    /// Emergency and master key management.
    SkullAuthority,
}

/// Numeric rank of an authority level, rising with authority.
pub open spec fn spec_level_rank(l: AuthorityLevel) -> int {
    match l {
        AuthorityLevel::DistroAccess => 1,
        AuthorityLevel::IgnitionControl => 2,
        AuthorityLevel::RepoControl => 3,
        AuthorityLevel::MasterControl => 4,
        AuthorityLevel::SkullAuthority => 5,
    }
}

impl AuthorityLevel {
    /// The authority level of a key tier.
    pub fn from_key_type(key_type: KeyType) -> (r: Self)
        ensures
            r == match key_type {
                KeyType::Skull => AuthorityLevel::SkullAuthority,
                KeyType::Master => AuthorityLevel::MasterControl,
                KeyType::Repo => AuthorityLevel::RepoControl,
                KeyType::Ignition => AuthorityLevel::IgnitionControl,
                KeyType::Distro => AuthorityLevel::DistroAccess,
            },
    {
        match key_type {
            KeyType::Skull => AuthorityLevel::SkullAuthority,
            KeyType::Master => AuthorityLevel::MasterControl,
            KeyType::Repo => AuthorityLevel::RepoControl,
            KeyType::Ignition => AuthorityLevel::IgnitionControl,
            KeyType::Distro => AuthorityLevel::DistroAccess,
        }
    }

    /// The numeric rank.
    pub fn rank(&self) -> (r: u8)
        ensures
            r as int == spec_level_rank(*self),
    {
        match self {
            AuthorityLevel::DistroAccess => 1,
            AuthorityLevel::IgnitionControl => 2,
            AuthorityLevel::RepoControl => 3,
            AuthorityLevel::MasterControl => 4,
            AuthorityLevel::SkullAuthority => 5,
        }
    }

    /// A human-readable description.
    pub fn description(&self) -> (r: &'static str)
        ensures
            r@ == match *self {
                AuthorityLevel::DistroAccess => "Distribution Access (File Operations)"@,
                AuthorityLevel::IgnitionControl => "Ignition Control (Key Management)"@,
                AuthorityLevel::RepoControl => "Repository Control (Full Repository)"@,
                AuthorityLevel::MasterControl => "Master Control (Global Operations)"@,
                AuthorityLevel::SkullAuthority => "Skull Authority (Emergency Recovery)"@,
            },
    {
        match self {
            AuthorityLevel::DistroAccess => "Distribution Access (File Operations)",
            AuthorityLevel::IgnitionControl => "Ignition Control (Key Management)",
            AuthorityLevel::RepoControl => "Repository Control (Full Repository)",
            AuthorityLevel::MasterControl => "Master Control (Global Operations)",
            AuthorityLevel::SkullAuthority => "Skull Authority (Emergency Recovery)",
        }
    }

    /// Whether this level suffices for an operation that requires at least
    /// `required_level`.
    pub fn can_perform(&self, required_level: AuthorityLevel) -> (r: bool)
        ensures
            r == (spec_level_rank(*self) >= spec_level_rank(required_level)),
    {
        self.rank() >= required_level.rank()
    }
}

/// Reject a parent/child tier pair that the hierarchy does not permit.
pub fn validate_authority_hierarchy(parent_type: KeyType, child_type: KeyType) -> (r: IgniteResult<
    (),
>)
    ensures
        r is Ok <==> spec_can_control(parent_type, child_type),
        r matches Err(e) ==> is_invalid_operation(e, "validate_authority_hierarchy"@),
{
    if !parent_type.can_control(child_type) {
        let mut reason = String::new();
        reason.append(parent_type.as_str());
        reason.append(" cannot control ");
        reason.append(child_type.as_str());
        return Err(IgniteError::InvalidOperation {
            operation: String::from_str("validate_authority_hierarchy"),
            reason,
        });
    }
    Ok(())
}

/// Prepare the validation engine; nothing needs doing today.
pub fn initialize_validation_engine() -> (r: IgniteResult<()>)
    ensures
        r is Ok,
{
    Ok(())
}

/// Initialize the authority subsystem.
pub fn initialize() -> (r: IgniteResult<()>)
    ensures
        r is Ok,
{
    initialize_validation_engine()
}

} // verus!
