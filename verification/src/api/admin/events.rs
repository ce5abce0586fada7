//! What listeners to the dashboard are told.
use crate::json::{Json, JsonView, num, ObjectBuilder};
use vstd::prelude::*;

verus! {

/// An event of a kind at a second.
pub open spec fn event_json(kind: Seq<char>, data: JsonView, now: u64) -> JsonView {
    JsonView::Object(
        seq![("type"@, JsonView::Text(kind)), ("data"@, data), ("timestamp"@, num(now))],
    )
}

/// An event of a kind at a second.
pub fn event(kind: &str, data: Json, now: u64) -> (r: Json)
    ensures
        r@ == event_json(kind@, data@, now),
{
    let ghost shown = data@;
    let mut o = ObjectBuilder::new();
    o.put_text("type", kind);
    o.put("data", data);
    o.put_num("timestamp", now);
    assert(o@ =~= event_json(kind@, shown, now)->Object_0);
    o.done()
}

} // verus!
