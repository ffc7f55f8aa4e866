//! Frame labels: how one call frame is rendered to the string that is
//! interned into the profile, and the model of the intern table itself.

use vstd::prelude::*;
use vstd::string::*;

use crate::trace::{Frame, FrameView};

verus! {

/// The character for one decimal digit.
pub open spec fn digit_char(d: int) -> char {
    if d == 0 {
        '0'
    } else if d == 1 {
        '1'
    } else if d == 2 {
        '2'
    } else if d == 3 {
        '3'
    } else if d == 4 {
        '4'
    } else if d == 5 {
        '5'
    } else if d == 6 {
        '6'
    } else if d == 7 {
        '7'
    } else if d == 8 {
        '8'
    } else {
        '9'
    }
}

/// The decimal rendering of a natural number, most significant digit first.
pub open spec fn dec_seq(n: nat) -> Seq<char>
    decreases n,
{
    if n < 10 {
        seq![digit_char(n as int)]
    } else {
        dec_seq(n / 10).push(digit_char((n % 10) as int))
    }
}

pub open spec fn is_dec_digit(c: char) -> bool {
    ||| c == '0'
    ||| c == '1'
    ||| c == '2'
    ||| c == '3'
    ||| c == '4'
    ||| c == '5'
    ||| c == '6'
    ||| c == '7'
    ||| c == '8'
    ||| c == '9'
}

pub proof fn lemma_dec_seq_len(n: nat)
    ensures
        dec_seq(n).len() >= 1,
    decreases n,
{
    if n >= 10 {
        lemma_dec_seq_len(n / 10);
    }
}

pub proof fn lemma_dec_seq_digits(n: nat)
    ensures
        forall|i: int| 0 <= i < dec_seq(n).len() ==> is_dec_digit(#[trigger] dec_seq(n)[i]),
    decreases n,
{
    if n < 10 {
        assert(dec_seq(n)[0] == digit_char(n as int));
    } else {
        lemma_dec_seq_digits(n / 10);
        let prefix = dec_seq(n / 10);
        assert forall|i: int| 0 <= i < dec_seq(n).len() implies is_dec_digit(
            #[trigger] dec_seq(n)[i],
        ) by {
            if i < prefix.len() {
                assert(dec_seq(n)[i] == prefix[i]);
            } else {
                assert(dec_seq(n)[i] == digit_char((n % 10) as int));
            }
        }
    }
}

/// Decimal rendering is injective: two numbers with the same rendering are equal.
pub proof fn lemma_dec_seq_injective(a: nat, b: nat)
    requires
        dec_seq(a) == dec_seq(b),
    ensures
        a == b,
    decreases a,
{
    lemma_dec_seq_len(a);
    lemma_dec_seq_len(b);
    if a < 10 && b < 10 {
        assert(dec_seq(a)[0] == digit_char(a as int));
        assert(dec_seq(b)[0] == digit_char(b as int));
    } else if a < 10 {
        lemma_dec_seq_len(b / 10);
        assert(dec_seq(b).len() >= 2);
    } else if b < 10 {
        lemma_dec_seq_len(a / 10);
        assert(dec_seq(a).len() >= 2);
    } else {
        assert(dec_seq(a).last() == digit_char((a % 10) as int));
        assert(dec_seq(b).last() == digit_char((b % 10) as int));
        assert(a % 10 == b % 10);
        assert(dec_seq(a).drop_last() =~= dec_seq(a / 10));
        assert(dec_seq(b).drop_last() =~= dec_seq(b / 10));
        lemma_dec_seq_injective(a / 10, b / 10);
        vstd::arithmetic::div_mod::lemma_fundamental_div_mod(a as int, 10);
        vstd::arithmetic::div_mod::lemma_fundamental_div_mod(b as int, 10);
    }
}

/// The label that a frame contributes to a sample.  With `show` set it is
/// `"<name> <filename>:<line>"`; without it, the bare function name.
pub open spec fn label_of(f: FrameView, show: bool) -> Seq<char> {
    if show {
        f.name + seq![' '] + f.filename + seq![':'] + dec_seq(f.line as nat)
    } else {
        f.name
    }
}

/// Without line numbers, the label depends on the function name alone: frames
/// that differ only in source location share one label.
pub proof fn lemma_label_ignores_location(f1: FrameView, f2: FrameView)
    requires
        f1.name == f2.name,
    ensures
        label_of(f1, false) == label_of(f2, false),
{
}

/// The tail of a `show`-label after the name and the separating space:
/// `<filename>:<line>`.
spec fn location_part(f: FrameView) -> Seq<char> {
    f.filename + seq![':'] + dec_seq(f.line as nat)
}

/// Two equal location parts come from equal locations: the line digits hold
/// no colon, so the last colon pins the filename's length.
proof fn lemma_location_part_injective(f1: FrameView, f2: FrameView)
    requires
        location_part(f1) == location_part(f2),
    ensures
        f1.filename == f2.filename,
        f1.line == f2.line,
{
    let r = location_part(f1);
    let p1 = f1.filename.len() as int;
    let p2 = f2.filename.len() as int;
    lemma_dec_seq_len(f1.line as nat);
    lemma_dec_seq_len(f2.line as nat);
    lemma_dec_seq_digits(f1.line as nat);
    lemma_dec_seq_digits(f2.line as nat);
    assert(r[p1] == ':');
    assert(r[p2] == ':');
    assert(forall|i: int| p1 < i < r.len() ==> is_dec_digit(#[trigger] r[i]));
    assert(forall|i: int| p2 < i < r.len() ==> is_dec_digit(#[trigger] r[i]));
    assert(p1 == p2);
    assert forall|i: int| 0 <= i < p1 implies #[trigger] f1.filename[i] == f2.filename[i] by {
        assert(f1.filename[i] == r[i]);
        assert(f2.filename[i] == r[i]);
    }
    assert(f1.filename =~= f2.filename);
    assert forall|j: int| 0 <= j < dec_seq(f1.line as nat).len() implies #[trigger] dec_seq(
        f1.line as nat,
    )[j] == dec_seq(f2.line as nat)[j] by {
        assert(dec_seq(f1.line as nat)[j] == r[p1 + 1 + j]);
        assert(dec_seq(f2.line as nat)[j] == r[p2 + 1 + j]);
    }
    assert(dec_seq(f1.line as nat) =~= dec_seq(f2.line as nat));
    lemma_dec_seq_injective(f1.line as nat, f2.line as nat);
}

/// With line numbers shown, frames with the same name but different source
/// locations get distinct labels.
pub proof fn lemma_label_keeps_location(f1: FrameView, f2: FrameView)
    requires
        f1.name == f2.name,
        f1.filename != f2.filename || f1.line != f2.line,
    ensures
        label_of(f1, true) != label_of(f2, true),
{
    if label_of(f1, true) == label_of(f2, true) {
        let l1 = label_of(f1, true);
        let l2 = label_of(f2, true);
        let base = f1.name.len() as int + 1;
        assert(location_part(f1) =~= location_part(f2)) by {
            assert(l1.len() == base + location_part(f1).len());
            assert(l2.len() == base + location_part(f2).len());
            assert(forall|i: int|
                0 <= i < location_part(f1).len() ==> #[trigger] location_part(f1)[i] == l1[base
                    + i]);
            assert(forall|i: int|
                0 <= i < location_part(f2).len() ==> #[trigger] location_part(f2)[i] == l2[base
                    + i]);
        }
        lemma_location_part_injective(f1, f2);
    }
}

/// One of the ten digit strings.
fn digit_str(d: u32) -> (s: &'static str)
    requires
        d < 10,
    ensures
        s@ == seq![digit_char(d as int)],
{
    proof {
        reveal_strlit("0");
        reveal_strlit("1");
        reveal_strlit("2");
        reveal_strlit("3");
        reveal_strlit("4");
        reveal_strlit("5");
        reveal_strlit("6");
        reveal_strlit("7");
        reveal_strlit("8");
        reveal_strlit("9");
    }
    let s: &'static str = if d == 0 {
        "0"
    } else if d == 1 {
        "1"
    } else if d == 2 {
        "2"
    } else if d == 3 {
        "3"
    } else if d == 4 {
        "4"
    } else if d == 5 {
        "5"
    } else if d == 6 {
        "6"
    } else if d == 7 {
        "7"
    } else {
        "8"
    };
    if d == 9 {
        let nine: &'static str = "9";
        assert(nine@ =~= seq![digit_char(d as int)]);
        nine
    } else {
        assert(s@ =~= seq![digit_char(d as int)]);
        s
    }
}

/// Renders a number in decimal.
pub fn u32_dec(n: u32) -> (s: String)
    ensures
        s@ == dec_seq(n as nat),
    decreases n,
{
    if n < 10 {
        let s = String::from_str(digit_str(n));
        assert(s@ =~= dec_seq(n as nat));
        s
    } else {
        let mut s = u32_dec(n / 10);
        s.append(digit_str(n % 10));
        assert(s@ =~= dec_seq(n as nat));
        s
    }
}

/// Renders the label a frame contributes to a sample.
pub fn format_label(f: &Frame, show: bool) -> (s: String)
    ensures
        s@ == label_of(f@, show),
{
    if show {
        proof {
            reveal_strlit(" ");
            reveal_strlit(":");
        }
        let mut s = f.name.clone();
        s.append(" ");
        s.append(f.filename.as_str());
        s.append(":");
        let line = u32_dec(f.line);
        s.append(line.as_str());
        assert(s@ =~= label_of(f@, show));
        s
    } else {
        f.name.clone()
    }
}

/// What interning one label does to the table: a label already present leaves
/// the table unchanged; a new one is appended.
pub open spec fn intern_one(tbl: Seq<Seq<char>>, l: Seq<char>) -> Seq<Seq<char>> {
    if tbl.contains(l) {
        tbl
    } else {
        tbl.push(l)
    }
}

/// Interning a sequence of labels, first to last.
pub open spec fn intern_seq(tbl: Seq<Seq<char>>, ls: Seq<Seq<char>>) -> Seq<Seq<char>>
    decreases ls.len(),
{
    if ls.len() == 0 {
        tbl
    } else {
        intern_seq(intern_one(tbl, ls[0]), ls.drop_first())
    }
}

/// A label that is already in the table never grows it.
pub proof fn lemma_intern_existing_label_no_growth(tbl: Seq<Seq<char>>, l: Seq<char>)
    requires
        tbl.contains(l),
    ensures
        intern_one(tbl, l) == tbl,
{
}

/// Interning keeps the table free of duplicates, only appends, and adds
/// exactly the labels interned.
pub proof fn lemma_intern_one_shape(tbl: Seq<Seq<char>>, l: Seq<char>)
    ensures
        tbl.no_duplicates() ==> intern_one(tbl, l).no_duplicates(),
        tbl.is_prefix_of(intern_one(tbl, l)),
        intern_one(tbl, l).contains(l),
        forall|x: Seq<char>|
            intern_one(tbl, l).contains(x) <==> tbl.contains(x) || x == l,
        tbl.len() <= intern_one(tbl, l).len(),
{
    if !tbl.contains(l) {
        assert(tbl.push(l)[tbl.len() as int] == l);
        assert forall|x: Seq<char>| #[trigger] tbl.push(l).contains(x) implies tbl.contains(x) || x
            == l by {
            let i = choose|i: int| 0 <= i < tbl.push(l).len() && tbl.push(l)[i] == x;
            if i < tbl.len() {
                assert(tbl[i] == x);
            }
        }
        assert forall|x: Seq<char>| tbl.contains(x) implies #[trigger] tbl.push(l).contains(x) by {
            let i = choose|i: int| 0 <= i < tbl.len() && tbl[i] == x;
            assert(tbl.push(l)[i] == x);
        }
        if tbl.no_duplicates() {
            assert forall|i: int, j: int|
                0 <= i < tbl.push(l).len() && 0 <= j < tbl.push(l).len() && i != j implies
                tbl.push(l)[i] != tbl.push(l)[j] by {
                if i < tbl.len() && j < tbl.len() {
                } else if i < tbl.len() {
                    assert(tbl.push(l)[i] == tbl[i]);
                    assert(tbl.push(l)[j] == l);
                    assert(tbl[i] != l);
                } else {
                    assert(tbl.push(l)[i] == l);
                    assert(tbl.push(l)[j] == tbl[j]);
                    assert(tbl[j] != l);
                }
            }
            assert(tbl.push(l).no_duplicates());
        }
    }
}

/// Folding one more label into the table.
pub proof fn lemma_intern_seq_push(tbl: Seq<Seq<char>>, ls: Seq<Seq<char>>, l: Seq<char>)
    ensures
        intern_seq(tbl, ls.push(l)) == intern_one(intern_seq(tbl, ls), l),
    decreases ls.len(),
{
    if ls.len() == 0 {
        assert(ls.push(l)[0] == l);
        assert(ls.push(l).drop_first() =~= Seq::<Seq<char>>::empty());
        assert(intern_seq(tbl, ls.push(l)) == intern_seq(
            intern_one(tbl, l),
            Seq::<Seq<char>>::empty(),
        ));
        assert(intern_seq(intern_one(tbl, l), Seq::<Seq<char>>::empty()) == intern_one(tbl, l));
    } else {
        assert(ls.push(l)[0] == ls[0]);
        assert(ls.push(l).drop_first() =~= ls.drop_first().push(l));
        lemma_intern_seq_push(intern_one(tbl, ls[0]), ls.drop_first(), l);
        assert(intern_seq(tbl, ls.push(l)) == intern_seq(
            intern_one(tbl, ls[0]),
            ls.drop_first().push(l),
        ));
        assert(intern_seq(tbl, ls) == intern_seq(intern_one(tbl, ls[0]), ls.drop_first()));
    }
}

/// Interning a batch keeps the table duplicate-free, only appends, and the
/// resulting table holds exactly the old labels and the interned ones.
pub proof fn lemma_intern_seq_shape(tbl: Seq<Seq<char>>, ls: Seq<Seq<char>>)
    ensures
        tbl.no_duplicates() ==> intern_seq(tbl, ls).no_duplicates(),
        tbl.is_prefix_of(intern_seq(tbl, ls)),
        forall|x: Seq<char>|
            intern_seq(tbl, ls).contains(x) <==> tbl.contains(x) || ls.contains(x),
    decreases ls.len(),
{
    if ls.len() == 0 {
        assert(forall|x: Seq<char>| !ls.contains(x));
    } else {
        let tbl1 = intern_one(tbl, ls[0]);
        lemma_intern_one_shape(tbl, ls[0]);
        lemma_intern_seq_shape(tbl1, ls.drop_first());
        assert(tbl.is_prefix_of(intern_seq(tbl, ls))) by {
            assert(tbl.is_prefix_of(tbl1));
            assert(tbl1.is_prefix_of(intern_seq(tbl1, ls.drop_first())));
        }
        assert(forall|x: Seq<char>|
            #[trigger] ls.contains(x) <==> x == ls[0] || ls.drop_first().contains(x)) by {
            assert(forall|i: int|
                0 <= i < ls.drop_first().len() ==> #[trigger] ls.drop_first()[i] == ls[i + 1]);
            assert(forall|i: int| 1 <= i < ls.len() ==> ls.drop_first()[i - 1] == #[trigger] ls[i]);
        }
    }
}

} // verus!
