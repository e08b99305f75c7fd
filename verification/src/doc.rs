//! The data model: one extracted test unit, and the per-document record
//! that owns the units together with the document's templates.

use vstd::prelude::*;

verus! {

/// One extracted, annotated code sample with a unique derived name.
pub struct Test {
    /// The derived, globally unique (within the document) test name.
    pub name: String,
    /// The code body, as the text chunks the document supplied, in order.
    pub text: Vec<String>,
    /// The sample is compiled but commented out of the generated suite.
    pub ignore: bool,
    /// The sample is built but never executed.
    pub no_run: bool,
    /// The sample is expected to panic when run.
    pub should_panic: bool,
    /// An explicit template tag, if the sample named one.
    pub template: Option<String>,
    /// The 0-based source line of the sample's first text chunk.
    pub line: usize,
}

/// The mathematical value of a [`Test`].
pub ghost struct TestV {
    pub name: Seq<char>,
    pub text: Seq<Seq<char>>,
    pub ignore: bool,
    pub no_run: bool,
    pub should_panic: bool,
    pub template: Option<Seq<char>>,
    pub line: nat,
}

/// The view of an optional owned string.
pub open spec fn opt_view(o: Option<String>) -> Option<Seq<char>> {
    match o {
        Option::Some(s) => Option::Some(s@),
        Option::None => Option::None,
    }
}

/// The views of a list of owned strings.
pub open spec fn strs_view(lines: Seq<String>) -> Seq<Seq<char>> {
    Seq::new(lines.len(), |i: int| lines[i]@)
}

/// The views of a list of test units.
pub open spec fn tests_view(ts: Seq<Test>) -> Seq<TestV> {
    Seq::new(ts.len(), |i: int| ts[i]@)
}

/// The views of a tag-to-template association list.
pub open spec fn tpl_view(m: Seq<(String, String)>) -> Seq<(Seq<char>, Seq<char>)> {
    Seq::new(m.len(), |i: int| (m[i].0@, m[i].1@))
}

impl View for Test {
    type V = TestV;

    open spec fn view(&self) -> TestV {
        TestV {
            name: self.name@,
            text: strs_view(self.text@),
            ignore: self.ignore,
            no_run: self.no_run,
            should_panic: self.should_panic,
            template: opt_view(self.template),
            line: self.line as nat,
        }
    }
}

/// One document's extraction result: its test units, its optional legacy
/// default template, and its named templates.
pub struct DocTest {
    /// The path the document was loaded from, as text.
    pub path: String,
    /// The legacy document-wide default template, if one block declared it.
    pub old_template: Option<String>,
    /// The extracted test units, in document order.
    pub tests: Vec<Test>,
    /// The named templates: tag to template body, first binding of a tag
    /// winning on lookup.
    pub templates: Vec<(String, String)>,
}

/// The mathematical value of a [`DocTest`].
pub ghost struct DocTestV {
    pub path: Seq<char>,
    pub old_template: Option<Seq<char>>,
    pub tests: Seq<TestV>,
    pub templates: Seq<(Seq<char>, Seq<char>)>,
}

impl View for DocTest {
    type V = DocTestV;

    open spec fn view(&self) -> DocTestV {
        DocTestV {
            path: self.path@,
            old_template: opt_view(self.old_template),
            tests: tests_view(self.tests@),
            templates: tpl_view(self.templates@),
        }
    }
}

/// Association-list lookup: the value of the first pair whose key matches.
pub open spec fn lookup(m: Seq<(Seq<char>, Seq<char>)>, k: Seq<char>) -> Option<Seq<char>>
    decreases m.len(),
{
    if m.len() == 0 {
        Option::None
    } else if m[0].0 == k {
        Option::Some(m[0].1)
    } else {
        lookup(m.drop_first(), k)
    }
}

} // verus!
