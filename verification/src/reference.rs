//! The table that turns parameter codes into canonical parameters.

use vstd::prelude::*;
use crate::text::{i32_text, read_i32, same_text};

verus! {

/// One parameter of the reference table.
#[derive(Debug, Clone)]
pub struct ReferenceParam {
    /// Canonical numeric id of the parameter.
    pub id: i32,
    /// Descriptive id of the parameter.
    pub element_id: String,
    /// Whether values of the parameter are numbers.
    pub is_scalar: bool,
}

/// What a `ReferenceParam` stands for.
pub struct ReferenceParamView {
    pub id: i32,
    pub element_id: Seq<char>,
    pub is_scalar: bool,
}

impl View for ReferenceParam {
    type V = ReferenceParamView;

    open spec fn view(&self) -> ReferenceParamView {
        ReferenceParamView { id: self.id, element_id: self.element_id@, is_scalar: self.is_scalar }
    }
}

/// The parameter that a record of the reference table describes: its
/// numeric id is a decimal, and `t` or `f` says whether it is scalar. Any
/// other record describes none.
pub open spec fn record_param(id: Seq<char>, element_id: Seq<char>, scalar: Seq<char>) -> Option<
    ReferenceParamView,
> {
    match i32_text(id) {
        Some(id) => if scalar == "t"@ {
            Some(ReferenceParamView { id, element_id, is_scalar: true })
        } else if scalar == "f"@ {
            Some(ReferenceParamView { id, element_id, is_scalar: false })
        } else {
            None
        },
        None => None,
    }
}

impl ReferenceParam {
    /// Reads a parameter from the fields of a record of the reference
    /// table.
    pub fn from_record(id: &str, element_id: &str, scalar: &str) -> (r: Option<ReferenceParam>)
        ensures
            match record_param(id@, element_id@, scalar@) {
                Some(param) => r is Some && r->Some_0@ == param,
                None => r is None,
            },
    {
        let id: i32 = match read_i32(id) {
            Some(id) => id,
            None => {
                return None;
            },
        };
        if same_text(scalar, "t") {
            Some(ReferenceParam { id, element_id: element_id.to_owned(), is_scalar: true })
        } else if same_text(scalar, "f") {
            Some(ReferenceParam { id, element_id: element_id.to_owned(), is_scalar: false })
        } else {
            None
        }
    }
}

/// A parameter code with its parameter.
pub struct Conversion {
    pub code: String,
    pub param: ReferenceParam,
}

/// The map that a list of conversions stands for: a later conversion of a
/// code replaces an earlier one.
pub open spec fn table_of(entries: Seq<Conversion>) -> Map<Seq<char>, ReferenceParamView>
    decreases entries.len(),
{
    if entries.len() == 0 {
        Map::empty()
    } else {
        table_of(entries.drop_last()).insert(entries.last().code@, entries.last().param@)
    }
}

/// The reference table: parameter code to parameter.
pub struct ParamConversions {
    entries: Vec<Conversion>,
}

impl View for ParamConversions {
    type V = Map<Seq<char>, ReferenceParamView>;

    closed spec fn view(&self) -> Map<Seq<char>, ReferenceParamView> {
        table_of(self.entries@)
    }
}

impl ParamConversions {
    /// The table without any parameter.
    pub fn new() -> (r: ParamConversions)
        ensures
            r@ == Map::<Seq<char>, ReferenceParamView>::empty(),
    {
        ParamConversions { entries: Vec::new() }
    }

    /// Makes `param` the parameter of `code`.
    pub fn insert(&mut self, code: String, param: ReferenceParam)
        ensures
            final(self)@ == old(self)@.insert(code@, param@),
    {
        let ghost before = self.entries@;
        self.entries.push(Conversion { code, param });
        assert(self.entries@.drop_last() == before);
    }

    /// The parameter of `code`, if the table has one.
    pub fn get(&self, code: &str) -> (r: Option<&ReferenceParam>)
        ensures
            match r {
                Some(p) => self@.contains_key(code@) && self@[code@] == p@,
                None => !self@.contains_key(code@),
            },
    {
        let mut i: usize = self.entries.len();
        assert(self.entries@.subrange(0, i as int) == self.entries@);
        while i > 0
            invariant
                i <= self.entries@.len(),
                self@ == table_of(self.entries@),
                table_of(self.entries@.subrange(0, i as int)).contains_key(code@)
                    == self@.contains_key(code@),
                self@.contains_key(code@) ==> table_of(self.entries@.subrange(0, i as int))[code@]
                    == self@[code@],
            decreases i,
        {
            let ghost upto = self.entries@.subrange(0, i as int);
            assert(upto.drop_last() == self.entries@.subrange(0, i - 1));
            assert(upto.last() == self.entries@[i - 1]);
            let entry = &self.entries[i - 1];
            if same_text(entry.code.as_str(), code) {
                return Some(&entry.param);
            }
            i -= 1;
        }
        None
    }
}

} // verus!
