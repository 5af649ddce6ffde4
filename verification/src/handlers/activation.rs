//! Mappings, as they are asked for and answered.

use crate::handlers::put;
use crate::json::{obj_put, Json, JsonV, Number, NumberV, Object};
use vstd::prelude::*;

verus! {

/// A request to delete a mapping.
#[derive(Debug)]
pub struct ActivationDeleteBody {
    pub activation_code: String,
}

/// A request for mappings.
#[derive(Debug)]
pub struct ActivationListQuery {
    pub source_doc_type: Option<String>,
    pub cr_type: Option<String>,
    pub target_dict: Option<String>,
}

/// A request to write a change request into the records.
#[derive(Debug)]
pub struct ActivateBody {
    pub cr_id: i64,
}

/// Answers that a mapping was saved.
pub fn mdm_activations_save(code: &str) -> (r: Json)
    ensures
        r@ == JsonV::Obj(obj_put(Seq::empty(), "activationCode"@, JsonV::Str(code@))),
{
    Json::Obj(put(Object::new(), "activationCode", Json::string(code)))
}

/// Answers how many mappings were deleted.
pub fn mdm_activations_delete(code: &str, affected: u64) -> (r: Json)
    ensures
        r@ == JsonV::Obj(
            obj_put(
                obj_put(Seq::empty(), "activationCode"@, JsonV::Str(code@)),
                "affected"@,
                JsonV::Num(NumberV::PosInt(affected)),
            ),
        ),
{
    let o = put(Object::new(), "activationCode", Json::string(code));
    Json::Obj(put(o, "affected", Json::Num(Number::PosInt(affected))))
}

} // verus!
