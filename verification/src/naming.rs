//! Deterministic naming of downloaded files: a destination prefix followed
//! by `file_` and the link's zero-based position in the extracted sequence.

use vstd::prelude::*;

verus! {

/// The character that writes a single decimal digit.
pub open spec fn digit_char(d: int) -> char
    recommends
        0 <= d < 10,
{
    if d == 0 {
        '0'
    } else if d == 1 {
        '1'
    } else if d == 2 {
        '2'
    } else if d == 3 {
        '3'
    } else if d == 4 {
        '4'
    } else if d == 5 {
        '5'
    } else if d == 6 {
        '6'
    } else if d == 7 {
        '7'
    } else if d == 8 {
        '8'
    } else {
        '9'
    }
}

/// The decimal writing of `n`, without leading zeros.
pub open spec fn decimal(n: nat) -> Seq<char>
    decreases n,
{
    if n < 10 {
        seq![digit_char(n as int)]
    } else {
        decimal(n / 10).push(digit_char((n % 10) as int))
    }
}

/// The name of the file holding the link at position `index`.
pub open spec fn file_name(index: nat) -> Seq<char> {
    "file_"@ + decimal(index)
}

/// The full path of that file: the caller's destination prefix, then the name.
pub open spec fn file_path(prefix: Seq<char>, index: nat) -> Seq<char> {
    prefix + file_name(index)
}

/// The one-character string of a single decimal digit.
fn digit_str(d: u64) -> (r: &'static str)
    requires
        d < 10,
    ensures
        r@ == seq![digit_char(d as int)],
{
    if d == 0 {
        proof {
            reveal_strlit("0");
        }
        assert("0"@ =~= seq![digit_char(0)]);
        "0"
    } else if d == 1 {
        proof {
            reveal_strlit("1");
        }
        assert("1"@ =~= seq![digit_char(1)]);
        "1"
    } else if d == 2 {
        proof {
            reveal_strlit("2");
        }
        assert("2"@ =~= seq![digit_char(2)]);
        "2"
    } else if d == 3 {
        proof {
            reveal_strlit("3");
        }
        assert("3"@ =~= seq![digit_char(3)]);
        "3"
    } else if d == 4 {
        proof {
            reveal_strlit("4");
        }
        assert("4"@ =~= seq![digit_char(4)]);
        "4"
    } else if d == 5 {
        proof {
            reveal_strlit("5");
        }
        assert("5"@ =~= seq![digit_char(5)]);
        "5"
    } else if d == 6 {
        proof {
            reveal_strlit("6");
        }
        assert("6"@ =~= seq![digit_char(6)]);
        "6"
    } else if d == 7 {
        proof {
            reveal_strlit("7");
        }
        assert("7"@ =~= seq![digit_char(7)]);
        "7"
    } else if d == 8 {
        proof {
            reveal_strlit("8");
        }
        assert("8"@ =~= seq![digit_char(8)]);
        "8"
    } else {
        proof {
            reveal_strlit("9");
        }
        assert("9"@ =~= seq![digit_char(9)]);
        "9"
    }
}

/// Writes `n` in decimal.
pub fn format_index(n: u64) -> (r: String)
    ensures
        r@ == decimal(n as nat),
    decreases n,
{
    if n < 10 {
        digit_str(n).to_owned()
    } else {
        let mut prefix = format_index(n / 10);
        prefix.append(digit_str(n % 10));
        proof {
            assert(prefix@ =~= decimal((n / 10) as nat).push(digit_char((n % 10) as int)));
        }
        prefix
    }
}

/// The path the link at position `index` is downloaded to.
pub fn download_path(prefix: &str, index: u64) -> (r: String)
    ensures
        r@ == file_path(prefix@, index as nat),
{
    let mut out = prefix.to_owned();
    out.append("file_");
    let digits = format_index(index);
    out.append(digits.as_str());
    proof {
        assert(out@ =~= file_path(prefix@, index as nat));
    }
    out
}

/// The paths of a run that downloads `count` links: `file_0` up to
/// `file_{count-1}`, each under the destination prefix, in link order.
pub fn download_paths(prefix: &str, count: u64) -> (r: Vec<String>)
    ensures
        r@.len() == count,
        forall|i: int| 0 <= i < count ==> (#[trigger] r@[i])@ == file_path(prefix@, i as nat),
{
    let mut out: Vec<String> = Vec::new();
    let mut i: u64 = 0;
    while i < count
        invariant
            0 <= i <= count,
            out@.len() == i,
            forall|t: int| 0 <= t < i ==> (#[trigger] out@[t])@ == file_path(prefix@, t as nat),
        decreases count - i,
    {
        let p = download_path(prefix, i);
        out.push(p);
        i += 1;
    }
    out
}

/// Two distinct numbers never share a decimal writing.
pub proof fn lemma_decimal_injective(a: nat, b: nat)
    requires
        decimal(a) == decimal(b),
    ensures
        a == b,
    decreases a,
{
    lemma_decimal_len(a);
    lemma_decimal_len(b);
    if a < 10 && b < 10 {
        assert(decimal(a)[0] == digit_char(a as int));
        assert(decimal(b)[0] == digit_char(b as int));
    } else if a >= 10 && b >= 10 {
        assert(decimal(a).last() == digit_char((a % 10) as int));
        assert(decimal(b).last() == digit_char((b % 10) as int));
        assert(a % 10 == b % 10);
        assert(decimal(a).drop_last() == decimal(a / 10)) by {
            assert(decimal(a / 10).push(digit_char((a % 10) as int)).drop_last() =~= decimal(
                a / 10,
            ));
        }
        assert(decimal(b).drop_last() == decimal(b / 10)) by {
            assert(decimal(b / 10).push(digit_char((b % 10) as int)).drop_last() =~= decimal(
                b / 10,
            ));
        }
        lemma_decimal_injective(a / 10, b / 10);
        assert(a == 10 * (a / 10) + a % 10);
        assert(b == 10 * (b / 10) + b % 10);
    } else {
        // One writing has a single digit, the other at least two.
        assert(false);
    }
}

/// A number under ten writes as one digit; a larger one as at least two.
proof fn lemma_decimal_len(n: nat)
    ensures
        n < 10 ==> decimal(n).len() == 1,
        n >= 10 ==> decimal(n).len() >= 2,
    decreases n,
{
    if n >= 10 {
        lemma_decimal_len(n / 10);
    }
}

/// Distinct link positions always name distinct files, whatever the
/// destination prefix: a run over `count` links writes `count` files.
pub proof fn lemma_paths_distinct(prefix: Seq<char>, i: nat, j: nat)
    requires
        i != j,
    ensures
        file_path(prefix, i) != file_path(prefix, j),
{
    if file_path(prefix, i) == file_path(prefix, j) {
        let head = prefix + "file_"@;
        assert(decimal(i) =~= file_path(prefix, i).subrange(
            head.len() as int,
            file_path(prefix, i).len() as int,
        ));
        assert(decimal(j) =~= file_path(prefix, j).subrange(
            head.len() as int,
            file_path(prefix, j).len() as int,
        ));
        lemma_decimal_injective(i, j);
    }
}

} // verus!
