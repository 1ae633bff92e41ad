use vstd::prelude::*;

verus! {

/// One workspace entry of `work_spaces.yaml`: where the variable lives, how
/// to authenticate, and the variable's name and new value.
#[derive(Debug, Clone)]
pub struct TFEVarMetaData {
    pub workspace_id: String,
    pub hostname: String,
    pub token: String,
    pub var_name: String,
    pub var_value: String,
}

} // verus!
