//! The bootstrap sequence: the environment validator that decides which of
//! the two artifacts (`config.yml`, `eula.txt`) must be generated, and the
//! loader gate that refuses to proceed without license acceptance before the
//! storage directory may be created. The caller performs the file reads and
//! writes and reports back what exists; every decision and every document
//! is produced here.

use vstd::prelude::*;

use crate::codec::{config_document, opt_str_view, spec_config_document};
use crate::config::{Config, ConfigV};
use crate::eula::{eula_document, spec_eula_document};

verus! {

/// Relies on chrono's `From<SystemTime>` impl for `DateTime<Local>` (total,
/// pre-epoch times included) and its `format` with `%d/%m/%Y %T`: the
/// operator-facing generation timestamp. The result depends on the wall
/// clock, so nothing is promised of it.
#[verifier::external_body]
fn local_timestamp() -> String {
    chrono::DateTime::<chrono::offset::Local>::from(std::time::SystemTime::now()).format(
        "%d/%m/%Y %T",
    ).to_string()
}

/// What the environment validator asks the caller to write: the full
/// document for each of the two artifacts that is missing, `None` for each
/// that already exists.
pub struct ValidationPlan {
    pub write_config: Option<String>,
    pub write_eula: Option<String>,
}

/// Mathematical view of `ValidationPlan`.
pub struct PlanV {
    pub write_config: Option<Seq<char>>,
    pub write_eula: Option<Seq<char>>,
}

impl View for ValidationPlan {
    type V = PlanV;

    open spec fn view(&self) -> PlanV {
        PlanV {
            write_config: opt_str_view(self.write_config),
            write_eula: opt_str_view(self.write_eula),
        }
    }
}

/// The validator's decision: generate exactly the missing artifacts, the
/// configuration as the default document, the license under the given
/// timestamp.
pub open spec fn spec_validation_plan(config_exists: bool, eula_exists: bool, ts: Seq<char>)
    -> PlanV {
    PlanV {
        write_config: if config_exists {
            None
        } else {
            Some(spec_config_document())
        },
        write_eula: if eula_exists {
            None
        } else {
            Some(spec_eula_document(ts))
        },
    }
}

/// The environment validator's decision for a given observation of the disk
/// and a given generation timestamp.
pub fn validation_plan(config_exists: bool, eula_exists: bool, timestamp: &str) -> (r:
    ValidationPlan)
    ensures
        r@ == spec_validation_plan(config_exists, eula_exists, timestamp@),
{
    let write_config = if config_exists {
        None
    } else {
        Some(config_document())
    };
    let write_eula = if eula_exists {
        None
    } else {
        Some(eula_document(timestamp))
    };
    ValidationPlan { write_config, write_eula }
}

/// The environment validator: ensures both bootstrap artifacts will exist by
/// planning a write for each missing one — the configuration file with the
/// default document, the license file under the current local time. Files
/// that exist are left untouched.
pub fn validate_environment(config_exists: bool, eula_exists: bool) -> (r: ValidationPlan)
    ensures
        (r@.write_config is Some) == !config_exists,
        !config_exists ==> r@.write_config == Some(spec_config_document()),
        (r@.write_eula is Some) == !eula_exists,
        !eula_exists ==> exists|ts: Seq<char>| r@.write_eula == Some(spec_eula_document(ts)),
{
    let ts = local_timestamp();
    let r = validation_plan(config_exists, eula_exists, ts.as_str());
    proof {
        if !eula_exists {
            assert(r@.write_eula == Some(spec_eula_document(ts@)));
        }
    }
    r
}

/// The two artifacts on disk, `Some` content or absent: the state the
/// validator acts on.
#[verifier::ext_equal]
pub struct DiskV {
    pub config: Option<Seq<char>>,
    pub eula: Option<Seq<char>>,
}

/// Writing a plan out: each planned document replaces the missing artifact;
/// everything else on disk stays as it was.
pub open spec fn apply_plan(d: DiskV, p: PlanV) -> DiskV {
    DiskV {
        config: match p.write_config {
            Some(doc) => Some(doc),
            None => d.config,
        },
        eula: match p.write_eula {
            Some(doc) => Some(doc),
            None => d.eula,
        },
    }
}

/// One full run of the environment validator over a disk state.
pub open spec fn run_validator(d: DiskV, ts: Seq<char>) -> DiskV {
    apply_plan(d, spec_validation_plan(d.config is Some, d.eula is Some, ts))
}

/// Idempotence law: after one run of the environment validator both
/// artifacts exist, so a second run — at any later timestamp — plans no
/// write and leaves both files byte-identical.
pub proof fn lemma_validator_idempotent(d: DiskV, ts1: Seq<char>, ts2: Seq<char>)
    ensures
        run_validator(run_validator(d, ts1), ts2) == run_validator(d, ts1),
{
    assert(run_validator(run_validator(d, ts1), ts2) =~= run_validator(d, ts1));
}

/// What the loader decides once the configuration is parsed: refuse with a
/// controlled exit status, or proceed, creating the storage directory if it
/// is absent.
pub enum BootstrapOutcome {
    Refused { exit_code: i32 },
    Proceed { create_storage: Option<String> },
}

/// Mathematical view of `BootstrapOutcome`.
pub enum OutcomeV {
    Refused { exit_code: i32 },
    Proceed { create_storage: Option<Seq<char>> },
}

impl View for BootstrapOutcome {
    type V = OutcomeV;

    open spec fn view(&self) -> OutcomeV {
        match self {
            BootstrapOutcome::Refused { exit_code } => OutcomeV::Refused { exit_code: *exit_code },
            BootstrapOutcome::Proceed { create_storage } => OutcomeV::Proceed {
                create_storage: match create_storage {
                    Some(p) => Some(p@),
                    None => None,
                },
            },
        }
    }
}

/// The acceptance gate and the storage-directory check, in their fixed
/// order: no storage step is ever reached while the license is unaccepted.
pub open spec fn spec_bootstrap_after_load(c: ConfigV, storage_exists: bool) -> OutcomeV {
    if !c.eula_acceptance {
        OutcomeV::Refused { exit_code: 1 }
    } else {
        OutcomeV::Proceed {
            create_storage: if storage_exists {
                None
            } else {
                Some(c.storage.path)
            },
        }
    }
}

/// Decides on a loaded configuration: refusal with exit status 1 when the
/// license is not accepted, otherwise an order to create the declared
/// storage path exactly when the caller found it absent.
pub fn bootstrap_after_load(config: &Config, storage_exists: bool) -> (r: BootstrapOutcome)
    ensures
        r@ == spec_bootstrap_after_load(config@, storage_exists),
{
    if !config.eula_acceptance {
        BootstrapOutcome::Refused { exit_code: 1 }
    } else if storage_exists {
        BootstrapOutcome::Proceed { create_storage: None }
    } else {
        BootstrapOutcome::Proceed { create_storage: Some(config.storage.path.clone()) }
    }
}

/// Gate-enforcement law: a configuration without license acceptance halts
/// the bootstrap with exit status 1 and orders no storage-directory step;
/// with acceptance it proceeds to the storage check, which orders creation
/// of the declared path exactly when that path is absent.
pub proof fn lemma_gate_enforcement(c: ConfigV, storage_exists: bool)
    ensures
        !c.eula_acceptance ==> spec_bootstrap_after_load(c, storage_exists)
            == (OutcomeV::Refused { exit_code: 1 }),
        c.eula_acceptance ==> (spec_bootstrap_after_load(c, storage_exists) matches OutcomeV::Proceed {
            create_storage,
        } && ((create_storage is Some) == !storage_exists) && (!storage_exists ==> create_storage
            == Some(c.storage.path))),
{
}

/// The fixed relative path of the configuration file.
pub fn config_path() -> (r: String)
    ensures
        r@ == "config.yml"@,
{
    String::from_str("config.yml")
}

/// The fixed relative path of the license file.
pub fn eula_path() -> (r: String)
    ensures
        r@ == "eula.txt"@,
{
    String::from_str("eula.txt")
}

/// The operator-facing message shown before a refused bootstrap exits.
pub fn refusal_message() -> (r: String)
    ensures
        r@ == "You must accept the Archiva EULA before running this program!"@,
{
    String::from_str("You must accept the Archiva EULA before running this program!")
}

} // verus!
