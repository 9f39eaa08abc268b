//! Variable cells: a list of strings with flags, never changed in place.

use crate::text::{contains_char, ends_with, has_suffix, join, joined, strings_view};
use vstd::prelude::*;

verus! {

/// Bit of [`EnvVarFlags::bits`] for an exported variable.
pub const FLAG_EXPORT: u8 = 1;

/// Bit of [`EnvVarFlags::bits`] for a read-only variable.
pub const FLAG_READ_ONLY: u8 = 2;

/// Bit of [`EnvVarFlags::bits`] for a path variable.
pub const FLAG_PATHVAR: u8 = 4;

/// The flags of a variable cell.
#[derive(Clone, Copy, PartialEq, Eq, Debug, Structural)]
pub struct EnvVarFlags {
    /// The variable is handed to child processes.
    pub exports: bool,
    /// The variable rejects mutation.
    pub read_only: bool,
    /// The elements are joined with a colon and must be shaped like paths.
    pub pathvar: bool,
}

impl EnvVarFlags {
    /// The flags as a bit set: 1 for exported, 2 for read-only, 4 for path.
    pub open spec fn bits_of(self) -> int {
        (if self.exports { 1int } else { 0 }) + (if self.read_only { 2int } else { 0 }) + (if self.pathvar { 4int } else { 0 })
    }

    /// The flags that a bit set stands for.
    pub open spec fn of_bits(bits: int) -> EnvVarFlags {
        EnvVarFlags {
            exports: bits % 2 == 1,
            read_only: (bits / 2) % 2 == 1,
            pathvar: (bits / 4) % 2 == 1,
        }
    }

    /// No flag set.
    pub fn empty() -> (f: EnvVarFlags)
        ensures
            f == (EnvVarFlags { exports: false, read_only: false, pathvar: false }),
    {
        EnvVarFlags { exports: false, read_only: false, pathvar: false }
    }

    /// The flags as a bit set.
    pub fn bits(&self) -> (b: u8)
        ensures
            b == self.bits_of(),
            b < 8,
    {
        let mut b: u8 = 0;
        if self.exports {
            b = b + FLAG_EXPORT;
        }
        if self.read_only {
            b = b + FLAG_READ_ONLY;
        }
        if self.pathvar {
            b = b + FLAG_PATHVAR;
        }
        b
    }

    /// The flags of a bit set, or `None` where a bit beyond the three is set.
    pub fn from_bits(bits: u8) -> (r: Option<EnvVarFlags>)
        ensures
            bits < 8 ==> r == Some(EnvVarFlags::of_bits(bits as int)),
            bits >= 8 ==> r is None,
    {
        if bits >= 8 {
            None
        } else {
            Some(
                EnvVarFlags {
                    exports: bits % 2 == 1,
                    read_only: (bits / 2) % 2 == 1,
                    pathvar: (bits / 4) % 2 == 1,
                },
            )
        }
    }
}

/// Flags and their bit set determine each other.
pub proof fn law_flag_bits_round_trip(f: EnvVarFlags, bits: int)
    ensures
        0 <= f.bits_of() < 8,
        EnvVarFlags::of_bits(f.bits_of()) == f,
        0 <= bits < 8 ==> EnvVarFlags::of_bits(bits).bits_of() == bits,
{
}

/// Separator of the elements of a path variable.
pub const PATH_ARRAY_SEP: char = ':';

/// Separator of the elements of any other variable.
pub const NONPATH_ARRAY_SEP: char = ' ';

/// A name may stand in a `NAME=value` entry: it is not empty and holds
/// neither `=` nor NUL.
pub open spec fn valid_name(name: Seq<char>) -> bool {
    name.len() > 0 && !name.contains('=') && !name.contains('\0')
}

/// Names that end in `PATH` are path variables unless told otherwise.
pub open spec fn is_path_like(name: Seq<char>) -> bool {
    has_suffix(name, seq!['P', 'A', 'T', 'H'])
}

/// An element of a path variable is shaped like a path: it is not empty and
/// holds neither the separator `:` nor NUL.
pub open spec fn path_shaped(value: Seq<char>) -> bool {
    value.len() > 0 && !value.contains(':') && !value.contains('\0')
}

/// Every element is shaped like a path.
pub open spec fn all_path_shaped(values: Seq<Seq<char>>) -> bool {
    forall|i: int| 0 <= i < values.len() ==> path_shaped(#[trigger] values[i])
}

/// Whether `name` may stand in a `NAME=value` entry.
pub fn is_valid_name(name: &str) -> (r: bool)
    ensures
        r == valid_name(name@),
{
    !name.is_empty() && !contains_char(name, '=') && !contains_char(name, '\0')
}

/// Whether `name` ends in `PATH`.
pub fn name_is_path_like(name: &str) -> (r: bool)
    ensures
        r == is_path_like(name@),
{
    proof {
        reveal_strlit("PATH");
        assert("PATH"@ =~= seq!['P', 'A', 'T', 'H']);
    }
    ends_with(name, "PATH")
}

/// Whether every element is shaped like a path.
pub fn values_path_shaped(values: &Vec<String>) -> (r: bool)
    ensures
        r == all_path_shaped(strings_view(values@)),
{
    let mut i: usize = 0;
    while i < values.len()
        invariant
            i <= values.len(),
            forall|j: int| 0 <= j < i ==> path_shaped(#[trigger] strings_view(values@)[j]),
        decreases values.len() - i,
    {
        let v = values[i].as_str();
        if v.is_empty() || contains_char(v, ':') || contains_char(v, '\0') {
            assert(!path_shaped(strings_view(values@)[i as int]));
            return false;
        }
        i += 1;
    }
    true
}

/// What a variable cell is: its elements and its flags.
pub struct VarView {
    pub values: Seq<Seq<char>>,
    pub flags: EnvVarFlags,
}

impl VarView {
    /// The character between the elements of the scalar form.
    pub open spec fn delimiter(self) -> char {
        if self.flags.pathvar {
            PATH_ARRAY_SEP
        } else {
            NONPATH_ARRAY_SEP
        }
    }

    /// No element, or one empty element.
    pub open spec fn is_empty(self) -> bool {
        self.values.len() == 0 || (self.values.len() == 1 && self.values[0].len() == 0)
    }

    /// The scalar form: the elements joined by the delimiter.
    pub open spec fn as_string(self) -> Seq<char> {
        joined(self.values, seq![self.delimiter()])
    }
}

/// A variable cell. No operation changes one in place: the `setting_*`
/// methods hand out a new cell.
#[derive(Debug)]
pub struct EnvVar {
    values: Vec<String>,
    flags: EnvVarFlags,
}

impl View for EnvVar {
    type V = VarView;

    closed spec fn view(&self) -> VarView {
        VarView { values: strings_view(self.values@), flags: self.flags }
    }
}

/// A copy of the strings.
pub fn clone_strings(values: &Vec<String>) -> (out: Vec<String>)
    ensures
        out@ == values@,
{
    let mut out: Vec<String> = Vec::new();
    let mut i: usize = 0;
    while i < values.len()
        invariant
            i <= values.len(),
            out@ == values@.take(i as int),
        decreases values.len() - i,
    {
        out.push(values[i].clone());
        assert(values@.take(i + 1) =~= values@.take(i as int).push(values@[i as int]));
        i += 1;
    }
    assert(values@.take(values@.len() as int) =~= values@);
    out
}

impl Clone for EnvVar {
    fn clone(&self) -> (r: EnvVar)
        ensures
            r@ == self@,
    {
        EnvVar { values: clone_strings(&self.values), flags: self.flags }
    }
}

impl PartialEq for EnvVar {
    fn eq(&self, other: &EnvVar) -> (r: bool) {
        self.equals(other)
    }
}

impl vstd::std_specs::cmp::PartialEqSpecImpl for EnvVar {
    open spec fn obeys_eq_spec() -> bool {
        true
    }

    open spec fn eq_spec(&self, other: &EnvVar) -> bool {
        self@ == other@
    }
}

impl EnvVar {
    /// A cell of one element.
    pub fn new(value: String, flags: EnvVarFlags) -> (r: EnvVar)
        ensures
            r@ == (VarView { values: seq![value@], flags }),
    {
        let mut values: Vec<String> = Vec::new();
        values.push(value);
        assert(strings_view(values@) =~= seq![value@]);
        EnvVar { values, flags }
    }

    /// A cell of the given elements.
    pub fn new_vec(values: Vec<String>, flags: EnvVarFlags) -> (r: EnvVar)
        ensures
            r@ == (VarView { values: strings_view(values@), flags }),
    {
        EnvVar { values, flags }
    }

    /// The flags that a fresh variable of this name gets: a path variable
    /// where the name ends in `PATH`, nothing else.
    pub open spec fn flags_for_name(name: Seq<char>) -> EnvVarFlags {
        EnvVarFlags { exports: false, read_only: false, pathvar: is_path_like(name) }
    }

    /// The flags that a fresh variable of this name gets.
    pub fn flags_for(name: &str) -> (f: EnvVarFlags)
        ensures
            f == EnvVar::flags_for_name(name@),
    {
        EnvVarFlags { exports: false, read_only: false, pathvar: name_is_path_like(name) }
    }

    /// A cell of one element, with the flags that the name calls for.
    pub fn new_from_name(name: &str, value: String) -> (r: EnvVar)
        ensures
            r@ == (VarView { values: seq![value@], flags: EnvVar::flags_for_name(name@) }),
    {
        EnvVar::new(value, EnvVar::flags_for(name))
    }

    /// A cell of the given elements, with the flags that the name calls for.
    pub fn new_from_name_vec(name: &str, values: Vec<String>) -> (r: EnvVar)
        ensures
            r@ == (VarView { values: strings_view(values@), flags: EnvVar::flags_for_name(name@) }),
    {
        EnvVar::new_vec(values, EnvVar::flags_for(name))
    }

    /// No element, or one empty element.
    pub fn is_empty(&self) -> (r: bool)
        ensures
            r == self@.is_empty(),
    {
        self.values.len() == 0 || (self.values.len() == 1 && self.values[0].as_str().is_empty())
    }

    /// Whether the variable is handed to child processes.
    pub fn exports(&self) -> (r: bool)
        ensures
            r == self@.flags.exports,
    {
        self.flags.exports
    }

    /// Whether the variable rejects mutation.
    pub fn is_read_only(&self) -> (r: bool)
        ensures
            r == self@.flags.read_only,
    {
        self.flags.read_only
    }

    /// Whether the variable is a path variable.
    pub fn is_pathvar(&self) -> (r: bool)
        ensures
            r == self@.flags.pathvar,
    {
        self.flags.pathvar
    }

    /// The flags.
    pub fn get_flags(&self) -> (f: EnvVarFlags)
        ensures
            f == self@.flags,
    {
        self.flags
    }

    /// The character between the elements of the scalar form: a colon for
    /// a path variable, a space otherwise.
    pub fn get_delimiter(&self) -> (c: char)
        ensures
            c == self@.delimiter(),
    {
        if self.flags.pathvar {
            PATH_ARRAY_SEP
        } else {
            NONPATH_ARRAY_SEP
        }
    }

    /// The scalar form: the elements joined by the delimiter.
    pub fn as_string(&self) -> (s: String)
        ensures
            s@ == self@.as_string(),
    {
        proof {
            reveal_strlit(":");
            reveal_strlit(" ");
            assert(":"@ =~= seq![PATH_ARRAY_SEP]);
            assert(" "@ =~= seq![NONPATH_ARRAY_SEP]);
        }
        if self.flags.pathvar {
            join(&self.values, ":")
        } else {
            join(&self.values, " ")
        }
    }

    /// The elements.
    pub fn as_list(&self) -> (l: &Vec<String>)
        ensures
            strings_view(l@) == self@.values,
    {
        &self.values
    }

    /// Two cells are equal where their elements and their flags are.
    pub fn equals(&self, other: &EnvVar) -> (r: bool)
        ensures
            r == (self@ == other@),
    {
        if self.flags != other.flags {
            return false;
        }
        if self.values.len() != other.values.len() {
            assert(strings_view(self.values@).len() != strings_view(other.values@).len());
            return false;
        }
        let mut i: usize = 0;
        while i < self.values.len()
            invariant
                i <= self.values.len(),
                self.values.len() == other.values.len(),
                forall|j: int| 0 <= j < i ==> self.values@[j]@ == other.values@[j]@,
            decreases self.values.len() - i,
        {
            if self.values[i] != other.values[i] {
                assert(strings_view(self.values@)[i as int] != strings_view(other.values@)[i as int]);
                return false;
            }
            i += 1;
        }
        assert(strings_view(self.values@) =~= strings_view(other.values@));
        true
    }

    /// The cell with other elements.
    pub fn setting_vals(&self, values: Vec<String>) -> (r: EnvVar)
        ensures
            r@ == (VarView { values: strings_view(values@), flags: self@.flags }),
    {
        EnvVar { values, flags: self.flags }
    }

    /// The cell, exported or not.
    pub fn setting_exports(&self, exports: bool) -> (r: EnvVar)
        ensures
            r@ == (VarView { flags: EnvVarFlags { exports, ..self@.flags }, ..self@ }),
    {
        EnvVar {
            values: clone_strings(&self.values),
            flags: EnvVarFlags { exports, read_only: self.flags.read_only, pathvar: self.flags.pathvar },
        }
    }

    /// The cell, a path variable or not.
    pub fn setting_pathvar(&self, pathvar: bool) -> (r: EnvVar)
        ensures
            r@ == (VarView { flags: EnvVarFlags { pathvar, ..self@.flags }, ..self@ }),
    {
        EnvVar {
            values: clone_strings(&self.values),
            flags: EnvVarFlags { exports: self.flags.exports, read_only: self.flags.read_only, pathvar },
        }
    }

    /// The cell, read-only or not.
    pub fn setting_read_only(&self, read_only: bool) -> (r: EnvVar)
        ensures
            r@ == (VarView { flags: EnvVarFlags { read_only, ..self@.flags }, ..self@ }),
    {
        EnvVar {
            values: clone_strings(&self.values),
            flags: EnvVarFlags { exports: self.flags.exports, read_only, pathvar: self.flags.pathvar },
        }
    }
}

} // verus!
