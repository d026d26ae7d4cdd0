//! The signal-name resolution table.
//!
//! A fixed, ordered table maps each canonical short signal name (`HUP`,
//! `INT`, …, `SYS`) to the platform's signal number.  Lookup is
//! case-insensitive: the requested name is ASCII-uppercased before it is
//! compared.  Listing yields the names in the table's declaration order,
//! which is a stable contract surfaced to users.

use vstd::prelude::*;
use vstd::string::StrSliceExecFns;

verus! {

/// One entry of the signal table: a canonical short uppercase name and the
/// platform's number for that signal.
pub struct SignalDescriptor {
    pub name: &'static str,
    pub value: i32,
}

/// The fixed signal table, in declaration order: the standard set of the
/// target platform, keyed by canonical short name.
pub open spec fn spec_signal_table() -> Seq<(Seq<char>, i32)> {
    seq![
        ("HUP"@, 1i32),
        ("INT"@, 2i32),
        ("QUIT"@, 3i32),
        ("ILL"@, 4i32),
        ("TRAP"@, 5i32),
        ("ABRT"@, 6i32),
        ("BUS"@, 7i32),
        ("FPE"@, 8i32),
        ("KILL"@, 9i32),
        ("USR1"@, 10i32),
        ("SEGV"@, 11i32),
        ("USR2"@, 12i32),
        ("PIPE"@, 13i32),
        ("ALRM"@, 14i32),
        ("TERM"@, 15i32),
        ("STKFLT"@, 16i32),
        ("CHLD"@, 17i32),
        ("CONT"@, 18i32),
        ("STOP"@, 19i32),
        ("TSTP"@, 20i32),
        ("TTIN"@, 21i32),
        ("TTOU"@, 22i32),
        ("URG"@, 23i32),
        ("XCPU"@, 24i32),
        ("XFSZ"@, 25i32),
        ("VTALRM"@, 26i32),
        ("PROF"@, 27i32),
        ("WINCH"@, 28i32),
        ("IO"@, 29i32),
        ("PWR"@, 30i32),
        ("SYS"@, 31i32),
    ]
}

/// A character with a lowercase ASCII letter mapped to its uppercase form;
/// every other character is left alone.
pub open spec fn upper_char(c: char) -> char {
    if 'a' <= c && c <= 'z' {
        (((c as u8) - 32) as char)
    } else {
        c
    }
}

/// A string with each lowercase ASCII letter uppercased.
pub open spec fn upper_chars(s: Seq<char>) -> Seq<char> {
    Seq::new(s.len(), |i: int| upper_char(s[i]))
}

/// The first table entry whose name equals the key, if any.
pub open spec fn spec_lookup(table: Seq<(Seq<char>, i32)>, key: Seq<char>) -> Option<
    (Seq<char>, i32),
>
    decreases table.len(),
{
    if table.len() == 0 {
        None
    } else if table.first().0 == key {
        Some(table.first())
    } else {
        spec_lookup(table.drop_first(), key)
    }
}

/// What resolving a signal name yields: the table entry whose canonical
/// name equals the ASCII-uppercased request, if any.
pub open spec fn spec_resolve(name: Seq<char>) -> Option<(Seq<char>, i32)> {
    spec_lookup(spec_signal_table(), upper_chars(name))
}

/// Uppercasing is idempotent: an already-uppercased name uppercases to
/// itself.
pub proof fn lemma_upper_chars_idempotent(s: Seq<char>)
    ensures
        upper_chars(upper_chars(s)) == upper_chars(s),
{
    assert(upper_chars(upper_chars(s)) =~= upper_chars(s));
}

/// Law: resolution is case-insensitive — names that agree once uppercased
/// resolve to the same descriptor, or both to none.
pub proof fn lemma_resolve_case_insensitive(a: Seq<char>, b: Seq<char>)
    requires
        upper_chars(a) == upper_chars(b),
    ensures
        spec_resolve(a) == spec_resolve(b),
{
}

/// Law: a name resolves exactly as its uppercased form does.
pub proof fn lemma_resolve_uppercased(s: Seq<char>)
    ensures
        spec_resolve(upper_chars(s)) == spec_resolve(s),
{
    lemma_upper_chars_idempotent(s);
}

/// A lookup succeeds exactly when some table entry bears the key, and what
/// it yields bears the key.
proof fn lemma_lookup_characterization(table: Seq<(Seq<char>, i32)>, key: Seq<char>)
    ensures
        (spec_lookup(table, key) is Some <==> exists|k: int|
            0 <= k < table.len() && (#[trigger] table[k]).0 == key),
        spec_lookup(table, key) matches Some(e) ==> e.0 == key,
    decreases table.len(),
{
    if table.len() > 0 {
        let rest = table.drop_first();
        lemma_lookup_characterization(rest, key);
        assert(forall|k: int| 0 <= k < rest.len() ==> #[trigger] rest[k] == table[k + 1]);
        if table.first().0 == key {
            assert(table[0].0 == key);
        } else {
            if spec_lookup(rest, key) is Some {
                let k = choose|k: int| 0 <= k < rest.len() && (#[trigger] rest[k]).0 == key;
                assert(table[k + 1].0 == key);
            }
            if exists|k: int| 0 <= k < table.len() && (#[trigger] table[k]).0 == key {
                let k = choose|k: int| 0 <= k < table.len() && (#[trigger] table[k]).0 == key;
                assert(k != 0);
                assert(rest[k - 1].0 == key);
            }
        }
    }
}

/// Law: a name resolves exactly when its uppercased form is one of the
/// canonical table names, and the descriptor it resolves to bears that
/// name.
pub proof fn lemma_resolve_known(name: Seq<char>)
    ensures
        (spec_resolve(name) is Some <==> exists|k: int|
            0 <= k < spec_signal_table().len() && (#[trigger] spec_signal_table()[k]).0
                == upper_chars(name)),
        spec_resolve(name) matches Some(e) ==> e.0 == upper_chars(name),
{
    lemma_lookup_characterization(spec_signal_table(), upper_chars(name));
}

/// Law: the signal table holds no duplicate names — any two distinct table
/// positions carry different canonical names.
#[verifier::rlimit(60)]
pub proof fn lemma_signal_names_distinct(i: int, j: int)
    requires
        0 <= i < spec_signal_table().len(),
        0 <= j < spec_signal_table().len(),
        i != j,
    ensures
        spec_signal_table()[i].0 != spec_signal_table()[j].0,
{
    reveal_strlit("HUP");
    reveal_strlit("INT");
    reveal_strlit("QUIT");
    reveal_strlit("ILL");
    reveal_strlit("TRAP");
    reveal_strlit("ABRT");
    reveal_strlit("BUS");
    reveal_strlit("FPE");
    reveal_strlit("KILL");
    reveal_strlit("USR1");
    reveal_strlit("SEGV");
    reveal_strlit("USR2");
    reveal_strlit("PIPE");
    reveal_strlit("ALRM");
    reveal_strlit("TERM");
    reveal_strlit("STKFLT");
    reveal_strlit("CHLD");
    reveal_strlit("CONT");
    reveal_strlit("STOP");
    reveal_strlit("TSTP");
    reveal_strlit("TTIN");
    reveal_strlit("TTOU");
    reveal_strlit("URG");
    reveal_strlit("XCPU");
    reveal_strlit("XFSZ");
    reveal_strlit("VTALRM");
    reveal_strlit("PROF");
    reveal_strlit("WINCH");
    reveal_strlit("IO");
    reveal_strlit("PWR");
    reveal_strlit("SYS");
    assert(("HUP"@).len() == 3 && "HUP"@[0] == 'H' && "HUP"@[1] == 'U' && "HUP"@[2] == 'P');
    assert(("INT"@).len() == 3 && "INT"@[0] == 'I' && "INT"@[1] == 'N' && "INT"@[2] == 'T');
    assert(("QUIT"@).len() == 4 && "QUIT"@[0] == 'Q' && "QUIT"@[1] == 'U' && "QUIT"@[2] == 'I' && "QUIT"@[3] == 'T');
    assert(("ILL"@).len() == 3 && "ILL"@[0] == 'I' && "ILL"@[1] == 'L' && "ILL"@[2] == 'L');
    assert(("TRAP"@).len() == 4 && "TRAP"@[0] == 'T' && "TRAP"@[1] == 'R' && "TRAP"@[2] == 'A' && "TRAP"@[3] == 'P');
    assert(("ABRT"@).len() == 4 && "ABRT"@[0] == 'A' && "ABRT"@[1] == 'B' && "ABRT"@[2] == 'R' && "ABRT"@[3] == 'T');
    assert(("BUS"@).len() == 3 && "BUS"@[0] == 'B' && "BUS"@[1] == 'U' && "BUS"@[2] == 'S');
    assert(("FPE"@).len() == 3 && "FPE"@[0] == 'F' && "FPE"@[1] == 'P' && "FPE"@[2] == 'E');
    assert(("KILL"@).len() == 4 && "KILL"@[0] == 'K' && "KILL"@[1] == 'I' && "KILL"@[2] == 'L' && "KILL"@[3] == 'L');
    assert(("USR1"@).len() == 4 && "USR1"@[0] == 'U' && "USR1"@[1] == 'S' && "USR1"@[2] == 'R' && "USR1"@[3] == '1');
    assert(("SEGV"@).len() == 4 && "SEGV"@[0] == 'S' && "SEGV"@[1] == 'E' && "SEGV"@[2] == 'G' && "SEGV"@[3] == 'V');
    assert(("USR2"@).len() == 4 && "USR2"@[0] == 'U' && "USR2"@[1] == 'S' && "USR2"@[2] == 'R' && "USR2"@[3] == '2');
    assert(("PIPE"@).len() == 4 && "PIPE"@[0] == 'P' && "PIPE"@[1] == 'I' && "PIPE"@[2] == 'P' && "PIPE"@[3] == 'E');
    assert(("ALRM"@).len() == 4 && "ALRM"@[0] == 'A' && "ALRM"@[1] == 'L' && "ALRM"@[2] == 'R' && "ALRM"@[3] == 'M');
    assert(("TERM"@).len() == 4 && "TERM"@[0] == 'T' && "TERM"@[1] == 'E' && "TERM"@[2] == 'R' && "TERM"@[3] == 'M');
    assert(("STKFLT"@).len() == 6 && "STKFLT"@[0] == 'S' && "STKFLT"@[1] == 'T' && "STKFLT"@[2] == 'K' && "STKFLT"@[3] == 'F' && "STKFLT"@[4] == 'L' && "STKFLT"@[5] == 'T');
    assert(("CHLD"@).len() == 4 && "CHLD"@[0] == 'C' && "CHLD"@[1] == 'H' && "CHLD"@[2] == 'L' && "CHLD"@[3] == 'D');
    assert(("CONT"@).len() == 4 && "CONT"@[0] == 'C' && "CONT"@[1] == 'O' && "CONT"@[2] == 'N' && "CONT"@[3] == 'T');
    assert(("STOP"@).len() == 4 && "STOP"@[0] == 'S' && "STOP"@[1] == 'T' && "STOP"@[2] == 'O' && "STOP"@[3] == 'P');
    assert(("TSTP"@).len() == 4 && "TSTP"@[0] == 'T' && "TSTP"@[1] == 'S' && "TSTP"@[2] == 'T' && "TSTP"@[3] == 'P');
    assert(("TTIN"@).len() == 4 && "TTIN"@[0] == 'T' && "TTIN"@[1] == 'T' && "TTIN"@[2] == 'I' && "TTIN"@[3] == 'N');
    assert(("TTOU"@).len() == 4 && "TTOU"@[0] == 'T' && "TTOU"@[1] == 'T' && "TTOU"@[2] == 'O' && "TTOU"@[3] == 'U');
    assert(("URG"@).len() == 3 && "URG"@[0] == 'U' && "URG"@[1] == 'R' && "URG"@[2] == 'G');
    assert(("XCPU"@).len() == 4 && "XCPU"@[0] == 'X' && "XCPU"@[1] == 'C' && "XCPU"@[2] == 'P' && "XCPU"@[3] == 'U');
    assert(("XFSZ"@).len() == 4 && "XFSZ"@[0] == 'X' && "XFSZ"@[1] == 'F' && "XFSZ"@[2] == 'S' && "XFSZ"@[3] == 'Z');
    assert(("VTALRM"@).len() == 6 && "VTALRM"@[0] == 'V' && "VTALRM"@[1] == 'T' && "VTALRM"@[2] == 'A' && "VTALRM"@[3] == 'L' && "VTALRM"@[4] == 'R' && "VTALRM"@[5] == 'M');
    assert(("PROF"@).len() == 4 && "PROF"@[0] == 'P' && "PROF"@[1] == 'R' && "PROF"@[2] == 'O' && "PROF"@[3] == 'F');
    assert(("WINCH"@).len() == 5 && "WINCH"@[0] == 'W' && "WINCH"@[1] == 'I' && "WINCH"@[2] == 'N' && "WINCH"@[3] == 'C' && "WINCH"@[4] == 'H');
    assert(("IO"@).len() == 2 && "IO"@[0] == 'I' && "IO"@[1] == 'O');
    assert(("PWR"@).len() == 3 && "PWR"@[0] == 'P' && "PWR"@[1] == 'W' && "PWR"@[2] == 'R');
    assert(("SYS"@).len() == 3 && "SYS"@[0] == 'S' && "SYS"@[1] == 'Y' && "SYS"@[2] == 'S');
}

/// ASCII-uppercase one character.
fn to_upper_char(c: char) -> (r: char)
    ensures
        r == upper_char(c),
{
    if 'a' <= c && c <= 'z' {
        ((c as u8) - 32) as char
    } else {
        c
    }
}

/// ASCII-uppercase a string into its characters.
fn to_upper_chars(s: &str) -> (v: Vec<char>)
    ensures
        v@ == upper_chars(s@),
{
    let n = s.unicode_len();
    let mut v: Vec<char> = Vec::new();
    let mut i: usize = 0;
    while i < n
        invariant
            n == s@.len(),
            i <= n,
            v@.len() == i,
            forall|j: int| 0 <= j < i ==> v@[j] == upper_char(s@[j]),
        decreases n - i,
    {
        v.push(to_upper_char(s.get_char(i)));
        i = i + 1;
    }
    proof {
        assert(v@ =~= upper_chars(s@));
    }
    v
}

/// The string's characters equal the given ones.
fn str_chars_eq(s: &str, chars: &Vec<char>) -> (r: bool)
    ensures
        r == (s@ == chars@),
{
    let n = s.unicode_len();
    if n != chars.len() {
        proof {
            assert(s@ != chars@);
        }
        return false;
    }
    let mut i: usize = 0;
    while i < n
        invariant
            n == s@.len() == chars@.len(),
            i <= n,
            forall|j: int| 0 <= j < i ==> s@[j] == chars@[j],
        decreases n - i,
    {
        if s.get_char(i) != chars[i] {
            return false;
        }
        i = i + 1;
    }
    proof {
        assert(s@ =~= chars@);
    }
    true
}

/// The signal table as values: the descriptors in declaration order,
/// mirroring `spec_signal_table` name for name and number for number.
pub fn signal_table() -> (t: Vec<SignalDescriptor>)
    ensures
        t@.len() == spec_signal_table().len(),
        forall|i: int|
            0 <= i < t@.len() ==> (#[trigger] t@[i]).name@ == spec_signal_table()[i].0
                && t@[i].value == spec_signal_table()[i].1,
{
    let mut t: Vec<SignalDescriptor> = Vec::new();
    t.push(SignalDescriptor { name: "HUP", value: 1 });
    t.push(SignalDescriptor { name: "INT", value: 2 });
    t.push(SignalDescriptor { name: "QUIT", value: 3 });
    t.push(SignalDescriptor { name: "ILL", value: 4 });
    t.push(SignalDescriptor { name: "TRAP", value: 5 });
    t.push(SignalDescriptor { name: "ABRT", value: 6 });
    t.push(SignalDescriptor { name: "BUS", value: 7 });
    t.push(SignalDescriptor { name: "FPE", value: 8 });
    t.push(SignalDescriptor { name: "KILL", value: 9 });
    t.push(SignalDescriptor { name: "USR1", value: 10 });
    t.push(SignalDescriptor { name: "SEGV", value: 11 });
    t.push(SignalDescriptor { name: "USR2", value: 12 });
    t.push(SignalDescriptor { name: "PIPE", value: 13 });
    t.push(SignalDescriptor { name: "ALRM", value: 14 });
    t.push(SignalDescriptor { name: "TERM", value: 15 });
    t.push(SignalDescriptor { name: "STKFLT", value: 16 });
    t.push(SignalDescriptor { name: "CHLD", value: 17 });
    t.push(SignalDescriptor { name: "CONT", value: 18 });
    t.push(SignalDescriptor { name: "STOP", value: 19 });
    t.push(SignalDescriptor { name: "TSTP", value: 20 });
    t.push(SignalDescriptor { name: "TTIN", value: 21 });
    t.push(SignalDescriptor { name: "TTOU", value: 22 });
    t.push(SignalDescriptor { name: "URG", value: 23 });
    t.push(SignalDescriptor { name: "XCPU", value: 24 });
    t.push(SignalDescriptor { name: "XFSZ", value: 25 });
    t.push(SignalDescriptor { name: "VTALRM", value: 26 });
    t.push(SignalDescriptor { name: "PROF", value: 27 });
    t.push(SignalDescriptor { name: "WINCH", value: 28 });
    t.push(SignalDescriptor { name: "IO", value: 29 });
    t.push(SignalDescriptor { name: "PWR", value: 30 });
    t.push(SignalDescriptor { name: "SYS", value: 31 });
    t
}

/// Resolve a signal name, case-insensitively, against the fixed table.
///
/// Yields the descriptor whose canonical name equals the ASCII-uppercased
/// request; an unknown name yields `None` — reporting that to the user is
/// the caller's business.
pub fn resolve(name: &str) -> (r: Option<SignalDescriptor>)
    ensures
        match r {
            Some(d) => spec_resolve(name@) == Some((d.name@, d.value)),
            None => spec_resolve(name@) is None,
        },
{
    let key = to_upper_chars(name);
    let table = signal_table();
    let n = table.len();
    let mut i: usize = 0;
    proof {
        assert(spec_signal_table().skip(0) =~= spec_signal_table());
    }
    while i < n
        invariant
            n == table@.len(),
            i <= n,
            key@ == upper_chars(name@),
            table@.len() == spec_signal_table().len(),
            forall|k: int|
                0 <= k < table@.len() ==> (#[trigger] table@[k]).name@ == spec_signal_table()[k].0
                    && table@[k].value == spec_signal_table()[k].1,
            spec_resolve(name@) == spec_lookup(spec_signal_table().skip(i as int), key@),
        decreases n - i,
    {
        proof {
            let rest = spec_signal_table().skip(i as int);
            assert(rest.first() == spec_signal_table()[i as int]);
            assert(rest.drop_first() =~= spec_signal_table().skip(i + 1));
        }
        if str_chars_eq(table[i].name, &key) {
            return Some(SignalDescriptor { name: table[i].name, value: table[i].value });
        }
        i = i + 1;
    }
    proof {
        assert(spec_signal_table().skip(n as int) =~= Seq::<(Seq<char>, i32)>::empty());
    }
    None
}

/// List the canonical signal names, in the table's declaration order.
///
/// The order is fixed and surfaced to users; repeated calls yield the same
/// names in the same order.
pub fn list_all() -> (names: Vec<&'static str>)
    ensures
        names@.len() == spec_signal_table().len(),
        forall|i: int| 0 <= i < names@.len() ==> (#[trigger] names@[i])@ == spec_signal_table()[i].0,
        forall|i: int, j: int|
            0 <= i < names@.len() && 0 <= j < names@.len() && i != j ==> (#[trigger] names@[i])@ != (
            #[trigger] names@[j])@,
{
    proof {
        assert forall|i: int, j: int|
            0 <= i < spec_signal_table().len() && 0 <= j < spec_signal_table().len() && i
                != j implies spec_signal_table()[i].0 != spec_signal_table()[j].0 by {
            lemma_signal_names_distinct(i, j);
        }
    }
    let table = signal_table();
    let mut names: Vec<&'static str> = Vec::new();
    let n = table.len();
    let mut i: usize = 0;
    while i < n
        invariant
            n == table@.len(),
            i <= n,
            table@.len() == spec_signal_table().len(),
            forall|k: int|
                0 <= k < table@.len() ==> (#[trigger] table@[k]).name@ == spec_signal_table()[k].0
                    && table@[k].value == spec_signal_table()[k].1,
            names@.len() == i,
            forall|k: int| 0 <= k < i ==> (#[trigger] names@[k])@ == spec_signal_table()[k].0,
        decreases n - i,
    {
        names.push(table[i].name);
        i = i + 1;
    }
    names
}

} // verus!
