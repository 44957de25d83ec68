//! Call sites: where a node of an error chain was created.

use crate::text::{numeral, push_numeral};
use vstd::prelude::*;

verus! {

/// An immutable descriptor of a source location: file, line and column.
///
/// A site is handed to every operation that creates a node; nothing changes
/// it afterwards.
#[derive(Clone, Copy, Debug, PartialEq, Eq)]
pub struct CallSite {
    file: &'static str,
    line: u32,
    column: u32,
}

impl CallSite {
    /// The file of this site, as a sequence of characters.
    pub closed spec fn file_view(self) -> Seq<char> {
        self.file@
    }

    /// The line of this site.
    pub closed spec fn line_view(self) -> u32 {
        self.line
    }

    /// The column of this site.
    pub closed spec fn column_view(self) -> u32 {
        self.column
    }

    /// The text of this site: file, line and column, with a colon between.
    pub open spec fn text(self) -> Seq<char> {
        self.file_view() + seq![':'] + numeral(self.line_view() as nat, 10) + seq![':'] + numeral(
            self.column_view() as nat,
            10,
        )
    }

    /// Describes the given location.
    pub fn new(file: &'static str, line: u32, column: u32) -> (site: CallSite)
        ensures
            site.file_view() == file@,
            site.line_view() == line,
            site.column_view() == column,
    {
        CallSite { file, line, column }
    }

    /// The file of this site.
    pub fn file(&self) -> (file: &'static str)
        ensures
            file@ == self.file_view(),
    {
        self.file
    }

    /// The line of this site.
    pub fn line(&self) -> (line: u32)
        ensures
            line == self.line_view(),
    {
        self.line
    }

    /// The column of this site.
    pub fn column(&self) -> (column: u32)
        ensures
            column == self.column_view(),
    {
        self.column
    }

    /// Appends the text of this site to `out`.
    pub fn push_to(&self, out: &mut String)
        ensures
            final(out)@ == old(out)@ + self.text(),
    {
        out.append(self.file);
        out.push(':');
        push_numeral(out, self.line as u128, 10);
        out.push(':');
        push_numeral(out, self.column as u128, 10);
        proof {
            let a = old(out)@;
            let f = self.file_view();
            let l = numeral(self.line_view() as nat, 10);
            let c = numeral(self.column_view() as nat, 10);
            assert((((a + f).push(':') + l).push(':') + c) == a + (f + seq![':'] + l + seq![':']
                + c));
        }
    }

    /// The text of this site.
    pub fn render(&self) -> (s: String)
        ensures
            s@ == self.text(),
    {
        let mut s = String::new();
        self.push_to(&mut s);
        assert(Seq::<char>::empty() + self.text() == self.text());
        s
    }
}

} // verus!
