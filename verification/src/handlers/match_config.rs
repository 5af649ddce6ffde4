//! Rules for finding duplicates, as they are asked for and answered.

use crate::handlers::put;
use crate::json::{number_of, obj_put, Json, JsonV, Number, NumberV, Object};
use vstd::prelude::*;

verus! {

/// A request for rules.
#[derive(Debug)]
pub struct MatchConfigQuery {
    pub dict_code: Option<String>,
}

/// A request to delete a rule.
#[derive(Debug)]
pub struct MatchConfigDeleteBody {
    pub config_id: i64,
}

/// Answers how many rules were put out of force.
pub fn mdm_match_configs_delete(config_id: i64, affected: u64) -> (r: Json)
    ensures
        r@ == JsonV::Obj(
            obj_put(
                obj_put(Seq::empty(), "configId"@, JsonV::Num(number_of(config_id))),
                "affected"@,
                JsonV::Num(NumberV::PosInt(affected)),
            ),
        ),
{
    let o = put(Object::new(), "configId", Json::integer(config_id));
    Json::Obj(put(o, "affected", Json::Num(Number::PosInt(affected))))
}

} // verus!
