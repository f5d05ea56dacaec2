//! The options that aria2 takes with a new download.
use crate::json::{Json, JsonValue};
use vstd::prelude::*;

verus! {

/// Options for a new download, as aria2 names them (such as `dir` or
/// `out`), each with its value, in the order they are sent.
#[derive(Debug, Clone, Default)]
pub struct TaskOptions {
    pub entries: Vec<(String, String)>,
}

/// The JSON object that carries the options.
pub open spec fn options_json(o: TaskOptions) -> Json {
    Json::Object(
        Seq::new(o.entries@.len(), |i: int| (o.entries@[i].0@, Json::Str(o.entries@[i].1@))),
    )
}

impl TaskOptions {
    /// The JSON object that carries these options.
    pub fn to_json(&self) -> (v: JsonValue)
        ensures
            v@ == options_json(*self),
    {
        let mut fields: Vec<(String, JsonValue)> = Vec::new();
        let mut i: usize = 0;
        while i < self.entries.len()
            invariant
                i <= self.entries@.len(),
                fields@.len() == i,
                forall|j: int|
                    0 <= j < i ==> (#[trigger] fields@[j]).0@ == self.entries@[j].0@ && fields@[j].1@
                        == Json::Str(self.entries@[j].1@),
            decreases self.entries@.len() - i,
        {
            let key = self.entries[i].0.clone();
            let value = JsonValue::Str(self.entries[i].1.clone());
            fields.push((key, value));
            i = i + 1;
        }
        let v = JsonValue::Object(fields);
        assert(v@ == options_json(*self)) by {
            assert(crate::json::field_views(fields@) =~= Seq::new(
                self.entries@.len(),
                |k: int| (self.entries@[k].0@, Json::Str(self.entries@[k].1@)),
            ));
        }
        v
    }
}

} // verus!
