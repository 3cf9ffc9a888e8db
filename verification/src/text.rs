//! Small verified text-building helpers for the human-readable status
//! strings of the command surface.

use vstd::prelude::*;

verus! {

/// The character for one decimal digit.
pub open spec fn digit_char(d: int) -> char {
    if d == 0 {
        '0'
    } else if d == 1 {
        '1'
    } else if d == 2 {
        '2'
    } else if d == 3 {
        '3'
    } else if d == 4 {
        '4'
    } else if d == 5 {
        '5'
    } else if d == 6 {
        '6'
    } else if d == 7 {
        '7'
    } else if d == 8 {
        '8'
    } else {
        '9'
    }
}

/// The usual decimal notation of a non-negative number, most significant
/// digit first, without leading zeros (except for zero itself).
pub open spec fn dec_rep(n: int) -> Seq<char>
    decreases n,
{
    if n < 10 {
        seq![digit_char(n)]
    } else {
        dec_rep(n / 10).push(digit_char(n % 10))
    }
}

fn digit_str(d: u32) -> (r: &'static str)
    requires
        d < 10,
    ensures
        r@ == seq![digit_char(d as int)],
{
    let r: &'static str = match d {
        0 => "0",
        1 => "1",
        2 => "2",
        3 => "3",
        4 => "4",
        5 => "5",
        6 => "6",
        7 => "7",
        8 => "8",
        _ => "9",
    };
    proof {
        reveal_strlit("0");
        reveal_strlit("1");
        reveal_strlit("2");
        reveal_strlit("3");
        reveal_strlit("4");
        reveal_strlit("5");
        reveal_strlit("6");
        reveal_strlit("7");
        reveal_strlit("8");
        reveal_strlit("9");
        assert(r@ =~= seq![digit_char(d as int)]);
    }
    r
}

/// Renders a number in decimal, exactly as [`dec_rep`] states.
pub fn u32_to_decimal(n: u32) -> (r: String)
    ensures
        r@ == dec_rep(n as int),
    decreases n,
{
    if n < 10 {
        digit_str(n).to_owned()
    } else {
        let mut s = u32_to_decimal(n / 10);
        s.append(digit_str(n % 10));
        proof {
            assert(dec_rep((n / 10) as int) + seq![digit_char((n % 10) as int)] =~= dec_rep(
                (n / 10) as int,
            ).push(digit_char((n % 10) as int)));
        }
        s
    }
}

/// The words joined by the separator: nothing for no words, and one
/// separator between each adjacent pair otherwise.
pub open spec fn join_sep(ws: Seq<Seq<char>>, sep: Seq<char>) -> Seq<char>
    decreases ws.len(),
{
    if ws.len() == 0 {
        Seq::empty()
    } else if ws.len() == 1 {
        ws[0]
    } else {
        ws[0] + sep + join_sep(ws.drop_first(), sep)
    }
}

proof fn lemma_join_sep_push(ws: Seq<Seq<char>>, sep: Seq<char>, w: Seq<char>)
    requires
        ws.len() >= 1,
    ensures
        join_sep(ws.push(w), sep) == join_sep(ws, sep) + sep + w,
    decreases ws.len(),
{
    let e = ws.push(w);
    assert(e[0] == ws[0]);
    if ws.len() == 1 {
        assert(e.drop_first() =~= seq![w]);
        assert(join_sep(seq![w], sep) == w);
        assert(join_sep(e, sep) == ws[0] + sep + w);
    } else {
        assert(e.drop_first() =~= ws.drop_first().push(w));
        lemma_join_sep_push(ws.drop_first(), sep, w);
        assert(ws[0] + sep + (join_sep(ws.drop_first(), sep) + sep + w) =~= (ws[0] + sep
            + join_sep(ws.drop_first(), sep)) + sep + w);
    }
}

/// Joins the words with the separator, exactly as [`join_sep`] states.
pub fn join_strings(words: &Vec<String>, sep: &str) -> (r: String)
    ensures
        r@ == join_sep(words.deep_view(), sep@),
{
    let ghost wsv = words.deep_view();
    if words.len() == 0 {
        return String::new();
    }
    let mut s: String = words[0].clone();
    let mut i: usize = 1;
    proof {
        assert(wsv.take(1) =~= seq![wsv[0]]);
        assert(join_sep(wsv.take(1), sep@) == wsv[0]);
    }
    while i < words.len()
        invariant
            1 <= i <= wsv.len(),
            wsv == words.deep_view(),
            s@ == join_sep(wsv.take(i as int), sep@),
        decreases wsv.len() - i,
    {
        s.append(sep);
        s.append(words[i].as_str());
        proof {
            assert(wsv.take(i + 1) =~= wsv.take(i as int).push(wsv[i as int]));
            lemma_join_sep_push(wsv.take(i as int), sep@, wsv[i as int]);
        }
        i += 1;
    }
    proof {
        assert(wsv.take(wsv.len() as int) =~= wsv);
    }
    s
}

} // verus!
