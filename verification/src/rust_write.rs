//! The generated code, line by line.
use crate::text::{views, Line};
use vstd::prelude::*;

verus! {

/// Collects the lines of the generated code.
pub struct RustWrite {
    pub lines: Vec<String>,
}

impl View for RustWrite {
    type V = Seq<Line>;

    open spec fn view(&self) -> Seq<Line> {
        views(self.lines@)
    }
}

/// One line per item, each with a comma behind it.
pub open spec fn listed(items: Seq<Line>) -> Seq<Line> {
    Seq::new(items.len(), |i: int| items[i] + ","@)
}

/// The header of a private function, without the brace that opens its body.
pub open spec fn fn_header(
    name: Line,
    type_parameters: Seq<Line>,
    parameters: Seq<Line>,
    return_type: Line,
    where_clauses: Seq<Line>,
) -> Seq<Line> {
    seq!["fn "@ + name + "<"@] + listed(type_parameters) + seq![">("@] + listed(parameters) + seq![
        ") -> "@ + return_type,
    ] + if where_clauses.len() == 0 {
        seq![]
    } else {
        seq!["where"@] + listed(where_clauses)
    }
}

impl RustWrite {
    /// What has been written is what the lines hold, one by one.
    pub proof fn law_lines(self)
        ensures
            self@.len() == self.lines@.len(),
            forall|i: int| 0 <= i < self.lines@.len() ==> #[trigger] self@[i] == self.lines@[i]@,
    {
    }

    pub fn new() -> (out: Self)
        ensures
            out@ == Seq::<Line>::empty(),
    {
        let out = RustWrite { lines: Vec::new() };
        assert(out@ =~= seq![]);
        out
    }

    /// Writes one line.
    pub fn writeln(&mut self, line: String)
        ensures
            final(self)@ == old(self)@.push(line@),
    {
        self.lines.push(line);
        assert(self@ =~= old(self)@.push(line@));
    }

    /// Writes the lines of a list.
    pub fn write_lines(&mut self, lines: &Vec<String>)
        ensures
            final(self)@ == old(self)@ + views(lines@),
    {
        let mut i: usize = 0;
        assert(self@ =~= old(self)@ + views(lines@).take(0));
        while i < lines.len()
            invariant
                i <= lines.len(),
                self@ == old(self)@ + views(lines@).take(i as int),
            decreases lines.len() - i,
        {
            self.writeln(lines[i].clone());
            assert(self@ =~= old(self)@ + views(lines@).take(i + 1));
            i += 1;
        }
        assert(views(lines@).take(i as int) =~= views(lines@));
    }

    fn write_listed(&mut self, items: &Vec<String>)
        ensures
            final(self)@ == old(self)@ + listed(views(items@)),
    {
        let mut i: usize = 0;
        assert(self@ =~= old(self)@ + listed(views(items@)).take(0));
        while i < items.len()
            invariant
                i <= items.len(),
                self@ == old(self)@ + listed(views(items@)).take(i as int),
            decreases items.len() - i,
        {
            self.writeln(items[i].clone().concat(","));
            assert(self@ =~= old(self)@ + listed(views(items@)).take(i + 1));
            i += 1;
        }
        assert(listed(views(items@)).take(i as int) =~= listed(views(items@)));
    }

    /// Writes the header of a private function.
    pub fn write_fn_header(
        &mut self,
        name: &str,
        type_parameters: &Vec<String>,
        parameters: &Vec<String>,
        return_type: &str,
        where_clauses: &Vec<String>,
    )
        ensures
            final(self)@ == old(self)@ + fn_header(
                name@,
                views(type_parameters@),
                views(parameters@),
                return_type@,
                views(where_clauses@),
            ),
    {
        self.writeln("fn ".to_owned().concat(name).concat("<"));
        self.write_listed(type_parameters);
        self.writeln(">(".to_owned());
        self.write_listed(parameters);
        self.writeln(") -> ".to_owned().concat(return_type));
        if where_clauses.len() != 0 {
            self.writeln("where".to_owned());
            self.write_listed(where_clauses);
        }
        assert(self@ =~= old(self)@ + fn_header(
            name@,
            views(type_parameters@),
            views(parameters@),
            return_type@,
            views(where_clauses@),
        ));
    }
}

} // verus!
