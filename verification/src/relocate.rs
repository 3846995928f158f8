//! File relocator: where an upload is staged, and where its file lives once
//! it has become a track.
//!
//! A staged file is named by the id of its pending upload; a stored file by
//! the id of its track, inside the owner's folder. Both ids are written in
//! decimal. The move itself is a rename, done by whoever drives the item.

use vstd::prelude::*;
use vstd::string::*;

verus! {

/// The folder that uploads are staged in, with its closing slash.
pub const STAGING_DIR: &'static str = "./devdir/temp/";

/// The folder that holds one folder per user, with its closing slash.
pub const LIBRARY_DIR: &'static str = "./devdir/u/";

/// The character for one decimal digit.
pub open spec fn digit(d: int) -> char {
    if d == 0 {
        '0'
    } else if d == 1 {
        '1'
    } else if d == 2 {
        '2'
    } else if d == 3 {
        '3'
    } else if d == 4 {
        '4'
    } else if d == 5 {
        '5'
    } else if d == 6 {
        '6'
    } else if d == 7 {
        '7'
    } else if d == 8 {
        '8'
    } else {
        '9'
    }
}

/// A natural number in decimal, without leading zeros.
pub open spec fn decimal_nat(n: nat) -> Seq<char>
    decreases n,
{
    if n < 10 {
        seq![digit(n as int)]
    } else {
        decimal_nat(n / 10).push(digit((n % 10) as int))
    }
}

/// An integer in decimal, with a minus sign when it is negative.
pub open spec fn decimal(n: int) -> Seq<char> {
    if n < 0 {
        seq!['-'] + decimal_nat((-n) as nat)
    } else {
        decimal_nat(n as nat)
    }
}

/// Where the upload `fid` is staged.
pub open spec fn staging_path(fid: i64) -> Seq<char> {
    STAGING_DIR@ + decimal(fid as int)
}

/// Where the file of `track` lives among `user`'s files.
pub open spec fn stored_path(user: Seq<char>, track: i64) -> Seq<char> {
    LIBRARY_DIR@ + user + seq!['/'] + decimal(track as int)
}

/// One decimal digit as text.
fn digit_text(d: u64) -> (s: &'static str)
    requires
        d < 10,
    ensures
        s@ == seq![digit(d as int)],
{
    proof {
        reveal_strlit("0");
        reveal_strlit("1");
        reveal_strlit("2");
        reveal_strlit("3");
        reveal_strlit("4");
        reveal_strlit("5");
        reveal_strlit("6");
        reveal_strlit("7");
        reveal_strlit("8");
        reveal_strlit("9");
    }
    let s = if d == 0 {
        "0"
    } else if d == 1 {
        "1"
    } else if d == 2 {
        "2"
    } else if d == 3 {
        "3"
    } else if d == 4 {
        "4"
    } else if d == 5 {
        "5"
    } else if d == 6 {
        "6"
    } else if d == 7 {
        "7"
    } else if d == 8 {
        "8"
    } else {
        "9"
    };
    assert(s@ =~= seq![digit(d as int)]);
    s
}

/// Appends `n` in decimal to `out`.
fn push_decimal_nat(out: &mut String, n: u64)
    ensures
        final(out)@ == old(out)@ + decimal_nat(n as nat),
    decreases n,
{
    if n >= 10 {
        push_decimal_nat(out, n / 10);
    }
    out.append(digit_text(n % 10));
    proof {
        if n >= 10 {
            assert(old(out)@ + decimal_nat((n / 10) as nat) + seq![digit((n % 10) as int)] =~= old(
                out,
            )@ + decimal_nat(n as nat));
        }
    }
}

/// Appends `n` in decimal to `out`.
pub fn push_decimal(out: &mut String, n: i64)
    ensures
        final(out)@ == old(out)@ + decimal(n as int),
{
    if n < 0 {
        out.append("-");
        proof {
            reveal_strlit("-");
        }
        let size: u64 = if n == i64::MIN {
            9223372036854775808u64
        } else {
            (-n) as u64
        };
        push_decimal_nat(out, size);
        proof {
            assert(old(out)@ + "-"@ + decimal_nat(size as nat) =~= old(out)@ + decimal(n as int));
        }
    } else {
        push_decimal_nat(out, n as u64);
    }
}

/// Where the upload `fid` is staged: the staging folder and the id.
pub fn staging_location(fid: i64) -> (p: String)
    ensures
        p@ == staging_path(fid),
{
    let mut p = String::from_str(STAGING_DIR);
    push_decimal(&mut p, fid);
    p
}

/// Where the file of `track` lives: the library folder, the owner's name, a
/// slash and the track's id.
pub fn stored_location(user: &str, track: i64) -> (p: String)
    ensures
        p@ == stored_path(user@, track),
{
    let mut p = String::from_str(LIBRARY_DIR);
    p.append(user);
    p.append("/");
    proof {
        reveal_strlit("/");
    }
    push_decimal(&mut p, track);
    p
}

/// A number in decimal has at least one character, all of them digits, and
/// more than one exactly when the number has more than one digit.
pub proof fn lemma_decimal_nat_shape(n: nat)
    ensures
        decimal_nat(n).len() >= 1,
        decimal_nat(n).len() == 1 <==> n < 10,
        forall|i: int| 0 <= i < decimal_nat(n).len() ==> #[trigger] decimal_nat(n)[i] != '-',
    decreases n,
{
    if n >= 10 {
        lemma_decimal_nat_shape(n / 10);
    }
}

/// Different numbers are written differently.
pub proof fn lemma_decimal_nat_differs(a: nat, b: nat)
    requires
        decimal_nat(a) == decimal_nat(b),
    ensures
        a == b,
    decreases a,
{
    lemma_decimal_nat_shape(a);
    lemma_decimal_nat_shape(b);
    if a >= 10 {
        let front_a = decimal_nat(a / 10);
        let front_b = decimal_nat(b / 10);
        assert(decimal_nat(a).drop_last() == front_a);
        assert(decimal_nat(b).drop_last() == front_b);
        assert(decimal_nat(a).last() == digit((a % 10) as int));
        assert(decimal_nat(b).last() == digit((b % 10) as int));
        lemma_decimal_nat_differs(a / 10, b / 10);
    } else {
        assert(decimal_nat(a)[0] == digit(a as int));
        assert(decimal_nat(b)[0] == digit(b as int));
    }
}

/// Different integers are written differently.
pub proof fn lemma_decimal_differs(a: int, b: int)
    requires
        decimal(a) == decimal(b),
    ensures
        a == b,
{
    let size_a = (if a < 0 {
        -a
    } else {
        a
    }) as nat;
    let size_b = (if b < 0 {
        -b
    } else {
        b
    }) as nat;
    lemma_decimal_nat_shape(size_a);
    lemma_decimal_nat_shape(size_b);
    if a < 0 {
        assert(decimal(a)[0] == '-');
        if b >= 0 {
            assert(decimal(b)[0] == decimal_nat(size_b)[0]);
        } else {
            assert(decimal(a).skip(1) == decimal_nat(size_a));
            assert(decimal(b).skip(1) == decimal_nat(size_b));
            lemma_decimal_nat_differs(size_a, size_b);
        }
    } else {
        assert(decimal(a)[0] == decimal_nat(size_a)[0]);
        if b < 0 {
            assert(decimal(b)[0] == '-');
        } else {
            lemma_decimal_nat_differs(size_a, size_b);
        }
    }
}

/// Two uploads are never staged in the same file, and two tracks of one
/// user never stored in the same file.
pub proof fn lemma_locations_differ(user: Seq<char>, a: i64, b: i64)
    requires
        a != b,
    ensures
        staging_path(a) != staging_path(b),
        stored_path(user, a) != stored_path(user, b),
{
    if staging_path(a) == staging_path(b) {
        let front = STAGING_DIR@;
        assert(staging_path(a).skip(front.len() as int) == decimal(a as int));
        assert(staging_path(b).skip(front.len() as int) == decimal(b as int));
        lemma_decimal_differs(a as int, b as int);
    }
    if stored_path(user, a) == stored_path(user, b) {
        let front = LIBRARY_DIR@ + user + seq!['/'];
        assert(stored_path(user, a).skip(front.len() as int) == decimal(a as int));
        assert(stored_path(user, b).skip(front.len() as int) == decimal(b as int));
        lemma_decimal_differs(a as int, b as int);
    }
}

} // verus!
