//! Hexadecimal text of arrays of 16-bit words.
use vstd::prelude::*;

verus! {

/// The lowercase hexadecimal digit of `d`, for `d < 16`.
pub open spec fn hex_digit(d: nat) -> char {
    seq!['0', '1', '2', '3', '4', '5', '6', '7', '8', '9', 'a', 'b', 'c', 'd', 'e', 'f'][d as int]
}

/// The lowercase hexadecimal form of `n`, without leading zeros ("0" for zero).
pub open spec fn hex_of(n: nat) -> Seq<char>
    decreases n,
{
    if n < 16 {
        seq![hex_digit(n)]
    } else {
        hex_of(n / 16).push(hex_digit(n % 16))
    }
}

/// The form of one word: at least two digits, so a word below 16 gets a leading zero,
/// and a word of 256 or more gets three or four digits.
pub open spec fn hex_word(w: nat) -> Seq<char> {
    if w < 16 {
        seq!['0', hex_digit(w)]
    } else {
        hex_of(w)
    }
}

/// The forms of the words of `s`, one after another, with no separator.
pub open spec fn hex_words(s: Seq<u16>) -> Seq<char>
    decreases s.len(),
{
    if s.len() == 0 {
        Seq::empty()
    } else {
        hex_words(s.drop_last()) + hex_word(s.last() as nat)
    }
}

/// A lowercase hexadecimal digit.
pub open spec fn is_hex_char(c: char) -> bool {
    ('0' <= c && c <= '9') || ('a' <= c && c <= 'f')
}

/// The two-digit hexadecimal form of a byte value `b`.
pub open spec fn hex_pair(b: nat) -> Seq<char> {
    seq![hex_digit(b / 16), hex_digit(b % 16)]
}

/// The two-digit forms of the words of `s`, one after another.
pub open spec fn hex_pairs(s: Seq<u16>) -> Seq<char>
    decreases s.len(),
{
    if s.len() == 0 {
        Seq::empty()
    } else {
        hex_pairs(s.drop_last()) + hex_pair(s.last() as nat)
    }
}

fn digit_str(d: u16) -> (r: &'static str)
    requires
        d < 16,
    ensures
        r@ == seq![hex_digit(d as nat)],
{
    match d {
        0 => {
            proof {
                reveal_strlit("0");
            }
            "0"
        },
        1 => {
            proof {
                reveal_strlit("1");
            }
            "1"
        },
        2 => {
            proof {
                reveal_strlit("2");
            }
            "2"
        },
        3 => {
            proof {
                reveal_strlit("3");
            }
            "3"
        },
        4 => {
            proof {
                reveal_strlit("4");
            }
            "4"
        },
        5 => {
            proof {
                reveal_strlit("5");
            }
            "5"
        },
        6 => {
            proof {
                reveal_strlit("6");
            }
            "6"
        },
        7 => {
            proof {
                reveal_strlit("7");
            }
            "7"
        },
        8 => {
            proof {
                reveal_strlit("8");
            }
            "8"
        },
        9 => {
            proof {
                reveal_strlit("9");
            }
            "9"
        },
        10 => {
            proof {
                reveal_strlit("a");
            }
            "a"
        },
        11 => {
            proof {
                reveal_strlit("b");
            }
            "b"
        },
        12 => {
            proof {
                reveal_strlit("c");
            }
            "c"
        },
        13 => {
            proof {
                reveal_strlit("d");
            }
            "d"
        },
        14 => {
            proof {
                reveal_strlit("e");
            }
            "e"
        },
        15 => {
            proof {
                reveal_strlit("f");
            }
            "f"
        },
        _ => {
            proof {
                reveal_strlit("f");
            }
            "f"
        },
    }
}

fn push_hex(s: &mut String, n: u16)
    ensures
        final(s)@ == old(s)@ + hex_of(n as nat),
    decreases n,
{
    if n >= 16 {
        push_hex(s, n / 16);
    }
    s.append(digit_str(n % 16));
    proof {
        if n >= 16 {
            assert(old(s)@ + hex_of((n / 16) as nat) + seq![hex_digit((n % 16) as nat)]
                =~= old(s)@ + hex_of(n as nat));
        } else {
            assert(n % 16 == n);
        }
    }
}

fn push_word(s: &mut String, n: u16)
    ensures
        final(s)@ == old(s)@ + hex_word(n as nat),
{
    if n < 16 {
        s.append(digit_str(0));
        push_hex(s, n);
        proof {
            assert(hex_of(n as nat) == seq![hex_digit(n as nat)]);
            assert(old(s)@ + seq![hex_digit(0)] + hex_of(n as nat) =~= old(s)@ + hex_word(
                n as nat,
            ));
        }
    } else {
        push_hex(s, n);
    }
}

/// The words of `bytes` in lowercase hexadecimal, joined with no separator. Each word
/// takes at least two digits (a leading zero below 16); a word of 256 or more takes
/// three or four, so then the text is longer than two digits a word and cannot always
/// be split back into words.
pub fn encode_hex(bytes: &[u16]) -> (s: String)
    ensures
        s@ == hex_words(bytes@),
{
    let mut s = String::new();
    let mut i: usize = 0;
    while i < bytes.len()
        invariant
            i <= bytes@.len(),
            s@ == hex_words(bytes@.take(i as int)),
        decreases bytes@.len() - i,
    {
        push_word(&mut s, bytes[i]);
        proof {
            assert(bytes@.take(i + 1).drop_last() =~= bytes@.take(i as int));
        }
        i = i + 1;
    }
    assert(bytes@.take(i as int) =~= bytes@);
    s
}

/// For words that each lie in `[0, 0xff]`, the hexadecimal text is twice as long as
/// the input and is the two-digit forms of the words, one after another.
pub proof fn law_hex_pairs(s: Seq<u16>)
    requires
        forall|i: int| 0 <= i < s.len() ==> #[trigger] s[i] <= 0xff,
    ensures
        hex_words(s) == hex_pairs(s),
        hex_words(s).len() == 2 * s.len(),
    decreases s.len(),
{
    if s.len() > 0 {
        let t = s.drop_last();
        assert forall|i: int| 0 <= i < t.len() implies #[trigger] t[i] <= 0xff by {
            assert(t[i] == s[i]);
        }
        law_hex_pairs(t);
        let b = s.last() as nat;
        assert(s[s.len() - 1] == s.last());
        assert(hex_digit(0) == '0');
        if b >= 16 {
            assert(1 <= b / 16 < 16);
            assert(hex_of(b / 16) == seq![hex_digit(b / 16)]);
        }
        assert(hex_word(b) =~= hex_pair(b));
    }
}

/// The number of digits of one word: two below 0x100, three below 0x1000, else four.
pub proof fn lemma_hex_word_len(w: u16)
    ensures
        hex_word(w as nat).len() == if w < 0x100 {
            2nat
        } else if w < 0x1000 {
            3nat
        } else {
            4nat
        },
{
    let n = w as nat;
    if n >= 16 {
        let n1 = n / 16;
        if n1 >= 16 {
            let n2 = n1 / 16;
            assert(n2 == n / 256);
            if n2 >= 16 {
                let n3 = n2 / 16;
                assert(n3 == n / 4096);
                assert(n3 < 16);
                assert(hex_of(n3).len() == 1);
            }
            assert(hex_of(n2).len() == if n < 0x1000 { 1nat } else { 2nat });
        }
        assert(hex_of(n1).len() == if n < 0x100 { 1nat } else if n < 0x1000 { 2nat } else { 3nat });
    }
}

/// The text takes at least two digits a word, and more than that as soon as one word is
/// 0x100 or above.
pub proof fn law_hex_length(s: Seq<u16>)
    ensures
        hex_words(s).len() >= 2 * s.len(),
        (exists|i: int| 0 <= i < s.len() && #[trigger] s[i] > 0xff) ==> hex_words(s).len() > 2
            * s.len(),
    decreases s.len(),
{
    if s.len() > 0 {
        let t = s.drop_last();
        law_hex_length(t);
        lemma_hex_word_len(s.last());
        if exists|i: int| 0 <= i < s.len() && #[trigger] s[i] > 0xff {
            let i = choose|i: int| 0 <= i < s.len() && #[trigger] s[i] > 0xff;
            if i < t.len() {
                assert(t[i] == s[i]);
            } else {
                assert(s[i] == s.last());
            }
        }
    }
}

proof fn lemma_digit_is_hex(d: nat)
    requires
        d < 16,
    ensures
        is_hex_char(hex_digit(d)),
{
    if d == 0 {
        assert(hex_digit(d) == '0');
    } else if d == 1 {
        assert(hex_digit(d) == '1');
    } else if d == 2 {
        assert(hex_digit(d) == '2');
    } else if d == 3 {
        assert(hex_digit(d) == '3');
    } else if d == 4 {
        assert(hex_digit(d) == '4');
    } else if d == 5 {
        assert(hex_digit(d) == '5');
    } else if d == 6 {
        assert(hex_digit(d) == '6');
    } else if d == 7 {
        assert(hex_digit(d) == '7');
    } else if d == 8 {
        assert(hex_digit(d) == '8');
    } else if d == 9 {
        assert(hex_digit(d) == '9');
    } else if d == 10 {
        assert(hex_digit(d) == 'a');
    } else if d == 11 {
        assert(hex_digit(d) == 'b');
    } else if d == 12 {
        assert(hex_digit(d) == 'c');
    } else if d == 13 {
        assert(hex_digit(d) == 'd');
    } else if d == 14 {
        assert(hex_digit(d) == 'e');
    } else if d == 15 {
        assert(hex_digit(d) == 'f');
    }
}

proof fn lemma_hex_of_chars(n: nat)
    ensures
        forall|i: int| 0 <= i < hex_of(n).len() ==> is_hex_char(#[trigger] hex_of(n)[i]),
    decreases n,
{
    lemma_digit_is_hex(n % 16);
    if n >= 16 {
        lemma_hex_of_chars(n / 16);
        let h = hex_of(n / 16);
        assert forall|i: int| 0 <= i < hex_of(n).len() implies is_hex_char(#[trigger] hex_of(n)[i]) by {
            if i < h.len() {
                assert(hex_of(n)[i] == h[i]);
            }
        }
    } else {
        assert(n % 16 == n);
    }
}

/// The text holds lowercase hexadecimal digits only: no prefix, no separator.
pub proof fn law_hex_chars(s: Seq<u16>)
    ensures
        forall|i: int| 0 <= i < hex_words(s).len() ==> is_hex_char(#[trigger] hex_words(s)[i]),
    decreases s.len(),
{
    if s.len() > 0 {
        let t = s.drop_last();
        let w = s.last() as nat;
        law_hex_chars(t);
        lemma_hex_of_chars(w);
        lemma_digit_is_hex(0);
        if w < 16 {
            lemma_digit_is_hex(w);
        }
        let a = hex_words(t);
        let b = hex_word(w);
        assert forall|i: int| 0 <= i < hex_words(s).len() implies is_hex_char(
            #[trigger] hex_words(s)[i],
        ) by {
            if i < a.len() {
                assert(hex_words(s)[i] == a[i]);
            } else {
                assert(hex_words(s)[i] == b[i - a.len()]);
            }
        }
    }
}

} // verus!
