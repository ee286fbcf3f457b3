//! Writing a version as text.

use vstd::prelude::*;
use vstd::string::StringExecFns;
use crate::decimal::{decimal_text, push_decimal};
use crate::version::Version;

verus! {

impl Version {
    /// The plain text of the version: its three components in decimal,
    /// joined by dots.
    pub open spec fn display_text(self) -> Seq<char> {
        decimal_text(self.major as nat) + seq!['.'] + decimal_text(self.minor as nat) + seq!['.']
            + decimal_text(self.revision as nat)
    }

    /// The debug text of the version: the plain text behind a `v`.
    pub open spec fn debug_text(self) -> Seq<char> {
        seq!['v'] + self.display_text()
    }

    /// Whether `text` holds the debug text of the version.
    pub open spec fn is_debug_text(self, text: String) -> bool {
        text@ == self.debug_text()
    }

    /// Appends the plain text of the version to `out`.
    fn push_display(&self, out: &mut String)
        ensures
            final(out)@ == old(out)@ + self.display_text(),
    {
        proof {
            reveal_strlit(".");
        }
        push_decimal(out, self.major as u64);
        out.append(".");
        push_decimal(out, self.minor as u64);
        out.append(".");
        push_decimal(out, self.revision as u64);
        assert(".".view() =~= seq!['.']);
        assert(final(out)@ =~= old(out)@ + self.display_text());
    }

    /// The plain text of the version, such as `1.2.3`.
    pub fn to_string(&self) -> (text: String)
        ensures
            text@ == self.display_text(),
    {
        let mut text = String::new();
        self.push_display(&mut text);
        assert(text@ =~= self.display_text());
        text
    }

    /// The debug text of the version, such as `v1.2.3`.
    pub fn to_debug_string(&self) -> (text: String)
        ensures
            text@ == self.debug_text(),
    {
        proof {
            reveal_strlit("v");
        }
        let mut text = String::new();
        text.append("v");
        self.push_display(&mut text);
        assert("v".view() =~= seq!['v']);
        assert(text@ =~= self.debug_text());
        text
    }
}

impl Into<String> for Version {
    /// The debug text of the version, such as `v1.2.3`.
    fn into(self) -> (text: String)
        ensures
            self.is_debug_text(text),
    {
        self.to_debug_string()
    }
}

impl vstd::std_specs::convert::IntoSpecImpl<String> for Version {
    open spec fn obeys_into_spec() -> bool {
        false
    }

    open spec fn into_spec(self) -> String {
        arbitrary()
    }
}

} // verus!
