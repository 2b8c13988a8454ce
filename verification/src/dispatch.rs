//! The dispatch table of a contract: for each function name the selector that calls it.
//!
//! A name stands in the table once. Recording a name again replaces its selector and
//! leaves the row where it is.

use vstd::prelude::*;
use vstd::string::*;
use crate::cpp_templates::{dispatch_case, dispatch_case_text};
use crate::decimal::{append_decimal, decimal};
use crate::text::{concat, concat_strings, str_eq, strings_view};

verus! {

/// A row of the table: a function name and its selector.
pub struct DispatchRow {
    pub name: Seq<char>,
    pub selector: int,
}

/// The rows that a list of pairs holds.
pub open spec fn rows_view(rows: Seq<(String, u32)>) -> Seq<DispatchRow> {
    rows.map_values(|row: (String, u32)| DispatchRow { name: row.0@, selector: row.1 as int })
}

/// The index of the first row named `name` at or after `from`, or the number of rows where
/// there is none.
pub open spec fn row_position(rows: Seq<DispatchRow>, name: Seq<char>, from: int) -> int
    decreases rows.len() - from,
{
    if from < 0 || from >= rows.len() {
        rows.len() as int
    } else if rows[from].name == name {
        from
    } else {
        row_position(rows, name, from + 1)
    }
}

/// The selector recorded for `name`.
pub open spec fn lookup(rows: Seq<DispatchRow>, name: Seq<char>) -> Option<int> {
    let at = row_position(rows, name, 0);
    if at < rows.len() {
        Some(rows[at].selector)
    } else {
        None
    }
}

/// The table after `selector` is recorded for `name`.
pub open spec fn recorded(rows: Seq<DispatchRow>, name: Seq<char>, selector: int) -> Seq<
    DispatchRow,
> {
    let at = row_position(rows, name, 0);
    if at < rows.len() {
        rows.update(at, DispatchRow { name, selector })
    } else {
        rows.push(DispatchRow { name, selector })
    }
}

/// No name stands in two rows.
pub open spec fn distinct_names(rows: Seq<DispatchRow>) -> bool {
    forall|i: int, j: int|
        0 <= i < rows.len() && 0 <= j < rows.len() && i != j ==> (#[trigger] rows[i]).name != (
        #[trigger] rows[j]).name
}

/// `row_position` is the first index at or after `from` whose row is named `name`.
pub proof fn lemma_row_position(rows: Seq<DispatchRow>, name: Seq<char>, from: int)
    requires
        0 <= from <= rows.len(),
    ensures
        from <= row_position(rows, name, from) <= rows.len(),
        forall|k: int| from <= k < row_position(rows, name, from) ==> rows[k].name != name,
        row_position(rows, name, from) < rows.len() ==> rows[row_position(rows, name, from)].name
            == name,
    decreases rows.len() - from,
{
    if from < rows.len() && rows[from].name != name {
        lemma_row_position(rows, name, from + 1);
    }
}

/// An index with the properties of `row_position` is `row_position`.
pub proof fn lemma_row_position_is(rows: Seq<DispatchRow>, name: Seq<char>, from: int, at: int)
    requires
        0 <= from <= at <= rows.len(),
        forall|k: int| from <= k < at ==> rows[k].name != name,
        at < rows.len() ==> rows[at].name == name,
    ensures
        row_position(rows, name, from) == at,
    decreases at - from,
{
    if from < at {
        lemma_row_position_is(rows, name, from + 1, at);
    }
}

/// After recording, `name` has the selector, every other name has what it had, and still
/// no name stands twice.
pub proof fn lemma_recorded(rows: Seq<DispatchRow>, name: Seq<char>, selector: int, other: Seq<char>)
    requires
        distinct_names(rows),
    ensures
        lookup(recorded(rows, name, selector), name) == Some(selector),
        other != name ==> lookup(recorded(rows, name, selector), other) == lookup(rows, other),
        distinct_names(recorded(rows, name, selector)),
{
    let after = recorded(rows, name, selector);
    let at = row_position(rows, name, 0);
    lemma_row_position(rows, name, 0);
    lemma_row_position_is(after, name, 0, at);
    if other != name {
        let there = row_position(rows, other, 0);
        lemma_row_position(rows, other, 0);
        if there < rows.len() {
            lemma_row_position_is(after, other, 0, there);
        } else {
            lemma_row_position_is(after, other, 0, after.len() as int);
        }
    }
    assert forall|i: int, j: int|
        0 <= i < after.len() && 0 <= j < after.len() && i != j implies (#[trigger] after[i]).name
        != (#[trigger] after[j]).name by {
        if at < rows.len() {
            assert(rows[i].name == after[i].name);
            assert(rows[j].name == after[j].name);
        } else {
            if i < rows.len() && j < rows.len() {
                assert(rows[i].name == after[i].name);
                assert(rows[j].name == after[j].name);
            }
        }
    }
}

/// The case of each row, in the order of the rows.
pub open spec fn case_parts(rows: Seq<DispatchRow>) -> Seq<Seq<char>> {
    Seq::new(
        rows.len(),
        |k: int| dispatch_case_text(decimal(rows[k].selector as nat), rows[k].name),
    )
}

/// The cases of the dispatch switch, one for each row, in the order of the rows.
pub open spec fn dispatch_cases_text(rows: Seq<DispatchRow>) -> Seq<char> {
    concat(case_parts(rows))
}

/// A name that has a selector has a row, which holds that selector.
pub proof fn lemma_lookup_row(rows: Seq<DispatchRow>, name: Seq<char>) -> (k: int)
    requires
        lookup(rows, name) is Some,
    ensures
        0 <= k < rows.len(),
        rows[k].name == name,
        Some(rows[k].selector) == lookup(rows, name),
{
    lemma_row_position(rows, name, 0);
    row_position(rows, name, 0)
}

/// The dispatch table of one contract.
pub struct DispatchTable {
    pub rows: Vec<(String, u32)>,
}

impl View for DispatchTable {
    type V = Seq<DispatchRow>;

    open spec fn view(&self) -> Seq<DispatchRow> {
        rows_view(self.rows@)
    }
}

impl DispatchTable {
    /// No name stands in two rows.
    pub open spec fn wf(&self) -> bool {
        distinct_names(self@)
    }

    /// A table without rows.
    pub fn new() -> (table: DispatchTable)
        ensures
            table@ == Seq::<DispatchRow>::empty(),
            table.wf(),
    {
        let table = DispatchTable { rows: Vec::new() };
        assert(table@ =~= Seq::<DispatchRow>::empty());
        table
    }

    /// Records `selector` for `name`: in the row of that name where there is one, in a
    /// new last row otherwise.
    pub fn record(&mut self, name: &str, selector: u32)
        requires
            old(self).wf(),
        ensures
            final(self)@ == recorded(old(self)@, name@, selector as int),
            final(self).wf(),
    {
        let ghost before = self@;
        let mut i: usize = 0;
        while i < self.rows.len()
            invariant
                i <= self.rows.len(),
                self@ == before,
                before == old(self)@,
                distinct_names(before),
                forall|k: int| 0 <= k < i ==> before[k].name != name@,
            decreases self.rows.len() - i,
        {
            assert(before[i as int].name == self.rows@[i as int].0@);
            if str_eq(self.rows[i].0.as_str(), name) {
                proof {
                    lemma_row_position_is(before, name@, 0, i as int);
                    lemma_recorded(before, name@, selector as int, name@);
                }
                self.rows.set(i, (String::from_str(name), selector));
                assert(self@ =~= recorded(before, name@, selector as int));
                return ;
            }
            i += 1;
        }
        proof {
            lemma_row_position_is(before, name@, 0, before.len() as int);
            lemma_recorded(before, name@, selector as int, name@);
        }
        self.rows.push((String::from_str(name), selector));
        assert(self@ =~= recorded(before, name@, selector as int));
    }

    /// Writes the cases of the dispatch switch.
    pub fn cases(&self) -> (text: String)
        ensures
            text@ == dispatch_cases_text(self@),
    {
        let ghost rows = self@;
        let mut cases: Vec<String> = Vec::new();
        let mut i: usize = 0;
        while i < self.rows.len()
            invariant
                i <= self.rows.len(),
                rows == self@,
                cases@.len() == i,
                forall|k: int|
                    0 <= k < i ==> (#[trigger] cases@[k])@ == dispatch_case_text(
                        decimal(rows[k].selector as nat),
                        rows[k].name,
                    ),
            decreases self.rows.len() - i,
        {
            let mut label = String::new();
            append_decimal(&mut label, self.rows[i].1 as u64);
            assert(label@ =~= decimal(rows[i as int].selector as nat));
            cases.push(dispatch_case(label.as_str(), self.rows[i].0.as_str()));
            i += 1;
        }
        assert(strings_view(cases@) =~= case_parts(rows));
        concat_strings(&cases)
    }
}

} // verus!
