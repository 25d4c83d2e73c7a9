//! What texts are taken apart into, and what is made of them.
use vstd::prelude::*;
use vstd::utf8::encode_utf8;

use crate::keys::listed;
use crate::numerals::all_digits;
use crate::numerals::digits_value;
use crate::numerals::number;
use crate::numerals::signed_number;
use crate::numerals::unsigned_number;
use crate::numerals::url_byte;
use crate::numerals::url_bytes;
use crate::order::keep;
use crate::order::lemma_keep;
use crate::order::text_lt;
use crate::text::blank;
use crate::text::cuttable;
use crate::text::decimal;
use crate::text::ends;
use crate::text::find_at;
use crate::text::has;
use crate::text::head;
use crate::text::is_white;
use crate::text::joined;
use crate::text::lemma_find_at;
use crate::text::lower;
use crate::text::lowered;
use crate::text::nonempty;
use crate::text::occurs_at;
use crate::text::only;
use crate::text::pieces;
use crate::text::replaced_first;
use crate::text::signed;
use crate::text::starts;
use crate::text::trim_end;
use crate::text::trim_start;
use crate::text::trimmed;
use crate::text::upper;
use crate::text::whites;
use crate::text::words;

verus! {

/// What is taken from the end of a text is all that is to be dropped there, and
/// nothing else.
pub proof fn lemma_end_is_trimmed(s: Seq<char>, drops: spec_fn(char) -> bool)
    ensures
        ({
            let r = trim_end(s, drops);
            &&& r.len() <= s.len()
            &&& r == s.take(r.len() as int)
            &&& r.len() > 0 ==> !drops(r.last())
            &&& forall|i: int| r.len() <= i < s.len() ==> drops(#[trigger] s[i])
        }),
    decreases s.len(),
{
    if s.len() > 0 && drops(s.last()) {
        let t = s.drop_last();
        lemma_end_is_trimmed(t, drops);
        let r = trim_end(s, drops);
        assert(r =~= s.take(r.len() as int));
        assert forall|i: int| r.len() <= i < s.len() implies drops(#[trigger] s[i]) by {
            if i < t.len() {
                assert(t[i] == s[i]);
            }
        }
    } else {
        assert(s =~= s.take(s.len() as int));
    }
}

/// What is taken from the start of a text is all that is to be dropped there, and
/// nothing else.
pub proof fn lemma_start_is_trimmed(s: Seq<char>, drops: spec_fn(char) -> bool)
    ensures
        ({
            let r = trim_start(s, drops);
            let n = s.len() - r.len();
            &&& r.len() <= s.len()
            &&& r == s.skip(n)
            &&& r.len() > 0 ==> !drops(r[0])
            &&& forall|i: int| 0 <= i < n ==> drops(#[trigger] s[i])
        }),
    decreases s.len(),
{
    if s.len() > 0 && drops(s[0]) {
        let t = s.drop_first();
        lemma_start_is_trimmed(t, drops);
        let r = trim_start(s, drops);
        let n = s.len() - r.len();
        assert(r =~= s.skip(n));
        assert forall|i: int| 0 <= i < n implies drops(#[trigger] s[i]) by {
            if i > 0 {
                assert(t[i - 1] == s[i]);
            }
        }
    } else {
        assert(s =~= s.skip(0));
    }
}

/// The text stands in another with nothing but white space round it.
pub open spec fn is_core(s: Seq<char>, i: int, j: int) -> bool {
    &&& 0 <= i <= j <= s.len()
    &&& forall|k: int| 0 <= k < i ==> is_white(#[trigger] s[k])
    &&& forall|k: int| j <= k < s.len() ==> is_white(#[trigger] s[k])
    &&& i < j ==> !is_white(s[i]) && !is_white(s[j - 1])
}

/// A trimmed text is what stands between the white space at its ends; it is empty just
/// where all is white.
pub proof fn lemma_trimmed(s: Seq<char>)
    ensures
        exists|i: int, j: int| #[trigger] is_core(s, i, j) && trimmed(s) == s.subrange(i, j),
        blank(s) <==> forall|k: int| 0 <= k < s.len() ==> is_white(#[trigger] s[k]),
{
    let t = trim_start(s, whites());
    lemma_start_is_trimmed(s, whites());
    lemma_end_is_trimmed(t, whites());
    let i = s.len() - t.len();
    let r = trimmed(s);
    let j = i + r.len();
    assert(r =~= s.subrange(i, j));
    assert forall|k: int| 0 <= k < i implies is_white(#[trigger] s[k]) by {
        assert(whites()(s[k]));
    }
    assert forall|k: int| j <= k < s.len() implies is_white(#[trigger] s[k]) by {
        assert(t[k - i] == s[k]);
        assert(whites()(t[k - i]));
    }
    if i < j {
        assert(r[0] == t[0] && t[0] == s[i]);
        assert(r.last() == s[j - 1]);
    }
    assert(is_core(s, i, j));
    if r.len() > 0 {
        assert(!is_white(s[i]));
    }
}

/// White space, as far as it is ASCII: the space, and what lies between the tab and
/// the carriage return.
pub proof fn lemma_white(c: char)
    requires
        (c as u32) < 128,
    ensures
        is_white(c) <==> c == ' ' || c == '\t' || c == '\n' || c == '\r' || c as u32 == 11 || c
            as u32 == 12,
{
}

/// Letters change their case and nothing else does: a small letter is that of its
/// capital, and the capital that of its small letter.
pub proof fn lemma_cases(c: char)
    ensures
        'A' <= c && c <= 'Z' ==> lower(c) as int == c as int + 32 && upper(lower(c)) == c,
        'a' <= c && c <= 'z' ==> upper(c) as int == c as int - 32 && lower(upper(c)) == c,
        !('A' <= c && c <= 'Z') ==> lower(c) == c,
        !('a' <= c && c <= 'z') ==> upper(c) == c,
{
}

/// A text in lower case has the lower case of each character, and stays when it is put
/// in lower case again.
pub proof fn lemma_lowered(s: Seq<char>)
    ensures
        lowered(s).len() == s.len(),
        forall|i: int| 0 <= i < s.len() ==> #[trigger] lowered(s)[i] == lower(s[i]),
        lowered(lowered(s)) == lowered(s),
{
    assert(lowered(lowered(s)) =~= lowered(s));
}

/// What stands between other texts is found there.
pub proof fn lemma_found(a: Seq<char>, p: Seq<char>, b: Seq<char>)
    ensures
        has(a + p + b, p),
        starts(p + b, p),
        ends(a + p, p),
{
    assert((a + p + b).subrange(a.len() as int, (a.len() + p.len()) as int) =~= p);
    assert(occurs_at(a + p + b, p, a.len() as int));
    assert((p + b).subrange(0, p.len() as int) =~= p);
    assert((a + p).subrange(a.len() as int, (a.len() + p.len()) as int) =~= p);
}

/// What begins a text, or ends it, stands in it, with the rest behind or before it.
pub proof fn lemma_at_the_ends(s: Seq<char>, p: Seq<char>)
    ensures
        starts(s, p) ==> has(s, p) && s == p + s.skip(p.len() as int),
        ends(s, p) ==> has(s, p) && s == s.take(s.len() - p.len()) + p,
{
    if starts(s, p) {
        assert(occurs_at(s, p, 0));
        assert(s.subrange(0, p.len() as int) + s.skip(p.len() as int) =~= s);
    }
    if ends(s, p) {
        let n = s.len() - p.len();
        assert(occurs_at(s, p, n));
        assert(s.take(n) + s.subrange(n, n + p.len()) =~= s);
    }
}

/// To replace the first of something is to put another there, and to leave the rest
/// as it is.
pub proof fn lemma_replaced(s: Seq<char>, p: Seq<char>, q: Seq<char>, i: int)
    ensures
        !(has(s, p)) ==> replaced_first(s, p, q) == s,
        occurs_at(s, p, i) && (forall|j: int| 0 <= j < i ==> !occurs_at(s, p, j)) ==> replaced_first(
            s,
            p,
            q,
        ) == s.take(i) + q + s.skip(i + p.len()),
{
    lemma_find_at(s, p, 0);
    let f = find_at(s, p, 0);
    if occurs_at(s, p, i) && (forall|j: int| 0 <= j < i ==> !occurs_at(s, p, j)) {
        if f is Some && f->0 < i {
            assert(!occurs_at(s, p, f->0));
        }
        if f is Some && f->0 > i {
            assert(!occurs_at(s, p, i));
        }
        assert(s.subrange(0, i) =~= s.take(i));
        assert(s.subrange(i + p.len(), s.len() as int) =~= s.skip(i + p.len()));
    }
}

/// The pieces of a text, with the character at which it was cut between them, are the
/// text again; none of them holds it.
pub proof fn lemma_pieces(s: Seq<char>, x: char)
    ensures
        pieces(s, only(x)).len() > 0,
        joined(pieces(s, only(x)), seq![x]) == s,
        forall|i: int|
            0 <= i < pieces(s, only(x)).len() ==> !(#[trigger] pieces(s, only(x))[i]).contains(x),
    decreases s.len(),
{
    let p = pieces(s, only(x));
    if s.len() == 0 {
        assert(joined(p, seq![x]) =~= s);
    } else {
        let t = s.drop_last();
        let f = pieces(t, only(x));
        lemma_pieces(t, x);
        if s.last() == x {
            assert(p.drop_last() =~= f);
            assert(joined(p, seq![x]) =~= s);
        } else {
            let l = f.last().push(s.last());
            assert(p.last() == l);
            assert(p.drop_last() =~= f.drop_last());
            if f.len() == 1 {
                assert(joined(f, seq![x]) == f[0]);
                assert(joined(p, seq![x]) == l);
            } else {
                assert(joined(p, seq![x]) == joined(f.drop_last(), seq![x]) + seq![x] + l);
                assert(joined(f, seq![x]) == joined(f.drop_last(), seq![x]) + seq![x] + f.last());
                assert(joined(f.drop_last(), seq![x]) + seq![x] + l =~= (joined(
                    f.drop_last(),
                    seq![x],
                ) + seq![x] + f.last()).push(s.last()));
            }
            assert(s =~= t.push(s.last()));
            assert(joined(p, seq![x]) =~= s);
            assert(!f.last().contains(x)) by {
                assert(f.last() == f[f.len() - 1]);
            }
            assert forall|i: int| 0 <= i < p.len() implies !(#[trigger] p[i]).contains(x) by {
                if i < f.len() - 1 {
                    assert(p[i] == f[i]);
                } else if l.contains(x) {
                    let k = choose|k: int| 0 <= k < l.len() && l[k] == x;
                    assert(f.last()[k] == x);
                }
            }
        }
    }
}

/// All characters of texts, one text after the other.
pub open spec fn run_together(p: Seq<Seq<char>>) -> Seq<char>
    decreases p.len(),
{
    if p.len() == 0 {
        Seq::empty()
    } else {
        run_together(p.drop_last()) + p.last()
    }
}

/// The test for what is not white.
pub open spec fn inked() -> spec_fn(char) -> bool {
    |c: char| !is_white(c)
}

proof fn lemma_inked_pieces(s: Seq<char>)
    ensures
        pieces(s, whites()).len() > 0,
        run_together(pieces(s, whites())) == keep(s, inked()),
        forall|i: int, k: int|
            0 <= i < pieces(s, whites()).len() && 0 <= k < pieces(s, whites())[i].len()
                ==> !is_white(#[trigger] pieces(s, whites())[i][k]),
    decreases s.len(),
{
    let p = pieces(s, whites());
    if s.len() == 0 {
        assert(p.drop_last() =~= Seq::<Seq<char>>::empty());
        assert(run_together(p.drop_last()) =~= Seq::<char>::empty());
        assert(run_together(p) =~= Seq::<char>::empty());
    } else {
        let t = s.drop_last();
        let f = pieces(t, whites());
        lemma_inked_pieces(t);
        if is_white(s.last()) {
            assert(p.drop_last() =~= f);
            assert(run_together(p) =~= run_together(f));
        } else {
            let l = f.last().push(s.last());
            assert(p.last() == l);
            assert(p.drop_last() =~= f.drop_last());
            assert(run_together(p) =~= run_together(f).push(s.last()));
            assert forall|i: int, k: int|
                0 <= i < p.len() && 0 <= k < p[i].len() implies !is_white(#[trigger] p[i][k]) by {
                if i < f.len() - 1 {
                    assert(p[i] == f[i]);
                    assert(!is_white(f[i][k]));
                } else if k < f.last().len() {
                    assert(f.last() == f[f.len() - 1]);
                    assert(!is_white(f[f.len() - 1][k]));
                }
            }
        }
    }
}

proof fn lemma_run_kept(p: Seq<Seq<char>>)
    ensures
        run_together(keep(p, nonempty())) == run_together(p),
    decreases p.len(),
{
    if p.len() > 0 {
        lemma_run_kept(p.drop_last());
        let k = keep(p, nonempty());
        let kf = keep(p.drop_last(), nonempty());
        if nonempty()(p.last()) {
            assert(k.drop_last() =~= kf);
        } else {
            assert(p.last() =~= Seq::<char>::empty());
            assert(run_together(p) =~= run_together(p.drop_last()));
        }
    }
}

/// The words of a text are not empty and hold no white space; run together they are
/// the text without its white space.
pub proof fn lemma_words(s: Seq<char>)
    ensures
        forall|i: int| 0 <= i < words(s).len() ==> (#[trigger] words(s)[i]).len() > 0,
        forall|i: int, k: int|
            0 <= i < words(s).len() && 0 <= k < words(s)[i].len() ==> !is_white(
                #[trigger] words(s)[i][k],
            ),
        run_together(words(s)) == keep(s, inked()),
{
    let p = pieces(s, whites());
    lemma_inked_pieces(s);
    lemma_run_kept(p);
    lemma_keep(p, nonempty());
    assert forall|i: int| 0 <= i < words(s).len() implies (#[trigger] words(s)[i]).len() > 0 by {
        assert(nonempty()(words(s)[i]));
    }
    assert forall|i: int, k: int|
        0 <= i < words(s).len() && 0 <= k < words(s)[i].len() implies !is_white(
        #[trigger] words(s)[i][k],
    ) by {
        assert(p.contains(words(s)[i]));
        let j = choose|j: int| 0 <= j < p.len() && p[j] == words(s)[i];
        assert(!is_white(p[j][k]));
    }
}

/// Texts are joined one after the other, with the separator between them only.
pub proof fn lemma_joined(p: Seq<Seq<char>>, t: Seq<char>, sep: Seq<char>)
    ensures
        joined(Seq::empty(), sep) == Seq::<char>::empty(),
        joined(seq![t], sep) == t,
        p.len() > 0 ==> joined(p.push(t), sep) == joined(p, sep) + sep + t,
{
    assert(p.push(t).drop_last() =~= p);
}

proof fn lemma_digits(n: nat)
    ensures
        all_digits(decimal(n)),
        digits_value(decimal(n)) == n,
        decimal(n).len() > 1 ==> decimal(n)[0] != '0',
    decreases n,
{
    if n < 10 {
        let d = decimal(n);
        assert(d.drop_last() =~= Seq::<char>::empty());
        assert(digits_value(d.drop_last()) == 0);
        assert(d[0] as int == 48 + n);
        assert(digits_value(d) == n);
    } else {
        let d = decimal(n);
        let f = decimal(n / 10);
        lemma_digits(n / 10);
        assert(d.drop_last() =~= f);
        assert(d.last() as int == 48 + n % 10);
        assert forall|i: int| 0 <= i < d.len() implies crate::numerals::is_digit(
            #[trigger] d[i],
        ) by {
            if i < f.len() {
                assert(d[i] == f[i]);
            }
        }
        assert(digits_value(d) == digits_value(f) * 10 + n % 10);
        assert(d[0] == f[0]);
        if f.len() == 1 {
            assert(n / 10 > 0);
            if n / 10 >= 10 {
                assert(f.len() == decimal(n / 10 / 10).len() + 1);
                lemma_digits(n / 10 / 10);
            }
            assert(f[0] as int == 48 + n / 10);
        }
    }
}

/// The notation of a number is that of its digits, without zeros before them, and
/// reads as the number again, with its sign.
pub proof fn lemma_numbers(n: int, m: nat)
    ensures
        number(signed(n)) == Some(n),
        number(decimal(m)) == Some(m as int),
        i64::MIN <= n <= i64::MAX ==> signed_number(signed(n)) == Some(n as i64),
        !(i64::MIN <= n <= i64::MAX) ==> signed_number(signed(n)) is None,
        m <= u64::MAX ==> unsigned_number(decimal(m)) == Some(m as u64),
        m > u64::MAX ==> unsigned_number(decimal(m)) is None,
        n < 0 ==> unsigned_number(signed(n)) is None,
        decimal(m).len() > 1 ==> decimal(m)[0] != '0',
{
    lemma_digits(m);
    assert(crate::numerals::is_digit(decimal(m)[0]));
    if n < 0 {
        let k = (-n) as nat;
        lemma_digits(k);
        reveal_strlit("-");
        assert("-"@ =~= seq!['-']);
        assert(signed(n)[0] == '-');
        assert(signed(n).skip(1) =~= decimal(k));
        assert(!crate::numerals::is_digit(signed(n)[0]));
    } else {
        lemma_digits(n as nat);
        assert(crate::numerals::is_digit(decimal(n as nat)[0]));
    }
}

/// A number may have one sign before its digits; anything else is none.
pub proof fn lemma_signs(s: Seq<char>)
    ensures
        all_digits(s) ==> number(seq!['+'] + s) == number(s),
        all_digits(s) ==> number(seq!['-'] + s) == Some(-(number(s)->0)),
        s.len() == 0 ==> number(s) is None,
        s.len() > 0 && !('0' <= s[0] && s[0] <= '9') && s[0] != '+' && s[0] != '-' ==> number(
            s,
        ) is None,
        forall|i: int|
            0 < i < s.len() && !('0' <= #[trigger] s[i] && s[i] <= '9') ==> number(s) is None,
{
    if all_digits(s) {
        assert((seq!['+'] + s).skip(1) =~= s);
        assert((seq!['-'] + s).skip(1) =~= s);
        assert((seq!['+'] + s)[0] == '+');
        assert((seq!['-'] + s)[0] == '-');
        assert(!crate::numerals::is_digit('+'));
        assert(!crate::numerals::is_digit('-'));
    }
    if s.len() > 0 {
        assert(all_digits(s) ==> crate::numerals::is_digit(s[0]));
    }
    assert forall|i: int|
        0 < i < s.len() && !('0' <= #[trigger] s[i] && s[i] <= '9') implies number(s) is None by {
        assert(s.skip(1)[i - 1] == s[i]);
        if all_digits(s) {
            assert(crate::numerals::is_digit(s[i]));
        }
        if all_digits(s.skip(1)) {
            assert(crate::numerals::is_digit(s.skip(1)[i - 1]));
        }
    }
}

/// The character stands for a value below sixteen.
pub open spec fn is_hex(c: char, d: int) -> bool {
    if d < 10 {
        c as int == '0' as int + d
    } else {
        c as int == 'A' as int + d - 10
    }
}

/// In an address a letter, a digit and the marks `-`, `_`, `.` and `/` stand for
/// themselves, and any other byte is written in two hexadecimal digits behind `%`;
/// bytes are written one after the other.
pub proof fn lemma_addresses_are_written(a: Seq<u8>, b: u8)
    ensures
        url_bytes(Seq::empty()) == Seq::<char>::empty(),
        url_bytes(a.push(b)) == url_bytes(a) + url_byte(b),
        ({
            let c = b as char;
            let plain = ('a' <= c && c <= 'z') || ('A' <= c && c <= 'Z') || ('0' <= c && c <= '9')
                || c == '-' || c == '_' || c == '.' || c == '/';
            let r = url_byte(b);
            &&& plain ==> r == seq![c]
            &&& !plain ==> r.len() == 3 && r[0] == '%' && is_hex(r[1], b as int / 16) && is_hex(
                r[2],
                b as int % 16,
            )
        }),
{
    assert(a.push(b).drop_last() =~= a);
}

/// A text that is short enough is told whole.
pub proof fn lemma_heads(s: Seq<char>, n: nat)
    requires
        cuttable(s, n),
    ensures
        encode_utf8(s).len() <= n ==> head(s, n) == s,
{
    if encode_utf8(s).len() <= n {
        let b = encode_utf8(s);
        assert(b.subrange(0, b.len() as int) =~= b);
        vstd::utf8::encode_utf8_decode_utf8(s);
    }
}

/// What a list has under a key is what it has there first.
pub proof fn lemma_listed(s: Seq<(Seq<char>, Seq<char>)>, key: Seq<char>, i: int)
    requires
        0 <= i <= s.len(),
        forall|j: int| 0 <= j < i ==> (#[trigger] s[j]).0 != key,
    ensures
        i == s.len() ==> listed(s, key) is None,
        i < s.len() && s[i].0 == key ==> listed(s, key) == Some(s[i].1),
    decreases s.len(),
{
    if i > 0 {
        let t = s.drop_first();
        assert(s[0].0 != key);
        assert forall|j: int| 0 <= j < i - 1 implies (#[trigger] t[j]).0 != key by {
            assert(t[j] == s[j + 1]);
        }
        lemma_listed(t, key, i - 1);
        if i < s.len() {
            assert(t[i - 1] == s[i]);
        }
    }
}

/// Of two texts that begin alike the one with the lower character comes first, and one
/// that ends there comes before one that goes on.
pub proof fn lemma_text_order(p: Seq<char>, c: char, d: char, x: Seq<char>, y: Seq<char>)
    ensures
        (c as int) < (d as int) ==> text_lt(p + seq![c] + x, p + seq![d] + y),
        text_lt(p, p + seq![c] + x),
    decreases p.len(),
{
    let a = p + seq![c] + x;
    let b = p + seq![d] + y;
    if p.len() > 0 {
        let q = p.drop_first();
        lemma_text_order(q, c, d, x, y);
        assert(a.drop_first() =~= q + seq![c] + x);
        assert(b.drop_first() =~= q + seq![d] + y);
        assert(a[0] == p[0] && b[0] == p[0]);
    } else {
        assert(a[0] == c && b[0] == d);
    }
}

} // verus!
