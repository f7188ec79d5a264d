//! Labels: a fixed-width short code (the stable identity key), a long
//! name, and a color specification kept as text.

use vstd::prelude::*;
use crate::text;

verus! {

/// Width of a label's short code, in characters.
pub const LABEL_LEN: usize = 4;

/// An RGB color triple.
#[derive(Clone, Copy, PartialEq, Eq, Structural, Debug)]
pub struct RGB {
    pub r: u8,
    pub g: u8,
    pub b: u8,
}

impl RGB {
    pub fn new(r: u8, g: u8, b: u8) -> (c: Self)
        ensures
            c == (RGB { r, g, b }),
    {
        RGB { r, g, b }
    }
}

impl Default for RGB {
    /// A light grey.
    fn default() -> (c: Self)
        ensures
            c == (RGB { r: 200, g: 200, b: 200 }),
    {
        RGB { r: 200, g: 200, b: 200 }
    }
}

/// Any text, truncated or space-padded to the code width.
pub open spec fn short_code(s: Seq<char>) -> Seq<char> {
    Seq::new(LABEL_LEN as nat, |i: int| if i < s.len() { s[i] } else { ' ' })
}

/// The mathematical value of a label: its three text fields.
pub struct LabelModel {
    pub code: Seq<char>,
    pub name: Seq<char>,
    pub color: Seq<char>,
}

/// A label. The short code is the label's identity within a store; the
/// long name and the color specification are free text.
#[derive(Debug)]
pub struct TaskLabel {
    pub short_name: String,
    pub long_name: String,
    pub color_str: String,
}

impl TaskLabel {
    /// The short code always has exactly the fixed width.
    pub open spec fn wf(&self) -> bool {
        self.short_name@.len() == LABEL_LEN
    }

    pub open spec fn spec_short_name(&self) -> Seq<char> {
        self.short_name@
    }

    pub open spec fn spec_long_name(&self) -> Seq<char> {
        self.long_name@
    }

    pub open spec fn spec_color(&self) -> Seq<char> {
        self.color_str@
    }

    pub fn new(long_name: &str, short_name: &str, color_str: &str) -> (l: Self)
        ensures
            l.wf(),
            l.spec_short_name() == short_code(short_name@),
            l.spec_long_name() == long_name@,
            l.spec_color() == color_str@,
    {
        TaskLabel {
            short_name: Self::generate_short_name(short_name),
            long_name: long_name.to_owned(),
            color_str: color_str.to_owned(),
        }
    }

    /// Truncates or space-pads free text to the code width.
    pub fn generate_short_name(text: &str) -> (r: String)
        ensures
            r@ == short_code(text@),
            r@.len() == LABEL_LEN,
    {
        let n = text.unicode_len();
        let mut r: String;
        if n >= LABEL_LEN {
            r = text.substring_char(0, LABEL_LEN).to_owned();
        } else {
            r = text.substring_char(0, n).to_owned();
            let mut pad = n;
            while pad < LABEL_LEN
                invariant
                    n <= pad <= LABEL_LEN,
                    n == text@.len(),
                    r@ =~= text@ + Seq::new((pad - n) as nat, |i: int| ' '),
                decreases LABEL_LEN - pad,
            {
                r.append(" ");
                proof {
                    reveal_strlit(" ");
                    assert(" "@ =~= seq![' ']);
                    assert(text@ + Seq::new((pad - n) as nat, |i: int| ' ') + seq![' '] =~= text@
                        + Seq::new((pad + 1 - n) as nat, |i: int| ' '));
                }
                pad = pad + 1;
            }
        }
        proof {
            assert(r@ =~= short_code(text@));
        }
        r
    }

    pub fn set_color(&mut self, color: &str)
        ensures
            final(self).color_str@ == color@,
            final(self).short_name == old(self).short_name,
            final(self).long_name == old(self).long_name,
    {
        self.color_str = color.to_owned();
    }

    pub fn set_tag(&mut self, tag: &str)
        ensures
            final(self).short_name@ == short_code(tag@),
            final(self).wf(),
            final(self).long_name == old(self).long_name,
            final(self).color_str == old(self).color_str,
    {
        self.short_name = Self::generate_short_name(tag);
    }

    pub fn set_name(&mut self, name: &str)
        ensures
            final(self).long_name@ == name@,
            final(self).short_name == old(self).short_name,
            final(self).color_str == old(self).color_str,
    {
        self.long_name = name.to_owned();
    }

    pub fn color_string(&self) -> (r: &str)
        ensures
            r@ == self.spec_color(),
    {
        self.color_str.as_str()
    }

    pub fn long_name(&self) -> (r: &str)
        ensures
            r@ == self.spec_long_name(),
    {
        self.long_name.as_str()
    }

    pub fn short_name(&self) -> (r: &str)
        ensures
            r@ == self.spec_short_name(),
    {
        self.short_name.as_str()
    }

    pub fn short_name_string(&self) -> (r: String)
        ensures
            r@ == self.spec_short_name(),
    {
        self.short_name.clone()
    }

    /// A field-for-field copy, equal to the original.
    pub fn duplicate(&self) -> (l: Self)
        ensures
            l == *self,
    {
        TaskLabel {
            short_name: self.short_name.clone(),
            long_name: self.long_name.clone(),
            color_str: self.color_str.clone(),
        }
    }

    /// Whether this label's code is exactly `code`.
    pub fn has_code(&self, code: &str) -> (r: bool)
        ensures
            r == (self.spec_short_name() == code@),
    {
        text::str_eq(self.short_name.as_str(), code)
    }
}

impl View for TaskLabel {
    type V = LabelModel;

    open spec fn view(&self) -> LabelModel {
        LabelModel { code: self.short_name@, name: self.long_name@, color: self.color_str@ }
    }
}

/// The label list as a sequence of mathematical values.
pub open spec fn labels_view(labels: Seq<TaskLabel>) -> Seq<LabelModel> {
    labels.map_values(|l: TaskLabel| l@)
}

impl Default for TaskLabel {
    /// An all-space code, empty name, empty color.
    fn default() -> (l: Self)
        ensures
            l.wf(),
            l.spec_short_name() == short_code(Seq::<char>::empty()),
            l.spec_long_name() == Seq::<char>::empty(),
            l.spec_color() == Seq::<char>::empty(),
    {
        let l = TaskLabel {
            short_name: Self::generate_short_name(""),
            long_name: String::new(),
            color_str: String::new(),
        };
        proof {
            reveal_strlit("");
            assert(""@ =~= Seq::<char>::empty());
        }
        l
    }
}

} // verus!
