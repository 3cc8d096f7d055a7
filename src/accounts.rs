//! Reading the user database and the login manager's session listing.
use vstd::prelude::*;
use vstd::string::*;
use crate::text::decimal;

verus! {

/// `s` cut at every `sep`: n separators give n + 1 pieces.
pub open spec fn split_on(s: Seq<char>, sep: char) -> Seq<Seq<char>>
    decreases s.len(),
{
    if s.len() == 0 {
        seq![Seq::empty()]
    } else {
        let prev = split_on(s.drop_last(), sep);
        if s.last() == sep {
            prev.push(Seq::empty())
        } else {
            prev.update(prev.len() - 1, prev.last().push(s.last()))
        }
    }
}

/// Lines of `s`: pieces between newlines, without a final empty piece, and
/// without the carriage return that ends a line before its newline.
pub open spec fn lines_of(s: Seq<char>) -> Seq<Seq<char>> {
    let p = split_on(s, '\n');
    let n = if p.last().len() == 0 {
        p.len() - 1
    } else {
        p.len() as int
    };
    Seq::new(
        n as nat,
        |k: int|
            if k < p.len() - 1 && p[k].len() > 0 && p[k].last() == '\r' {
                p[k].drop_last()
            } else {
                p[k]
            },
    )
}

/// Unicode white space.
pub open spec fn white(c: char) -> bool {
    ('\t' <= c <= '\r') || c == ' ' || c == '\u{85}' || c == '\u{a0}' || c == '\u{1680}' || (
    '\u{2000}' <= c <= '\u{200a}') || c == '\u{2028}' || c == '\u{2029}' || c == '\u{202f}' || c
        == '\u{205f}' || c == '\u{3000}'
}

/// Maximal runs of non-white characters of `s`, in order.
pub open spec fn words(s: Seq<char>) -> Seq<Seq<char>>
    decreases s.len(),
{
    if s.len() == 0 {
        Seq::empty()
    } else {
        let prev = words(s.drop_last());
        if white(s.last()) {
            prev
        } else if s.len() >= 2 && !white(s[s.len() - 2]) {
            prev.update(prev.len() - 1, prev.last().push(s.last()))
        } else {
            prev.push(seq![s.last()])
        }
    }
}

pub open spec fn is_digit(c: char) -> bool {
    '0' <= c <= '9'
}

/// Value of a string of decimal digits.
pub open spec fn digits_value(s: Seq<char>) -> int
    decreases s.len(),
{
    if s.len() == 0 {
        0
    } else {
        digits_value(s.drop_last()) * 10 + (s.last() as int - '0' as int)
    }
}

/// The unsigned 32-bit number written in `s`: decimal digits, optionally
/// after a `+`, with a value that fits.
/// `s` without a leading `+`.
pub open spec fn unsigned_part(s: Seq<char>) -> Seq<char> {
    if s.len() > 0 && s[0] == '+' {
        s.drop_first()
    } else {
        s
    }
}

pub open spec fn parse_u32(s: Seq<char>) -> Option<u32> {
    let d = unsigned_part(s);
    if d.len() > 0 && (forall|i: int| 0 <= i < d.len() ==> is_digit(#[trigger] d[i]))
        && digits_value(d) <= u32::MAX {
        Some(digits_value(d) as u32)
    } else {
        None
    }
}

/// Field `field` of the first line of `ls` that has at least `min` fields
/// separated by `:` and whose third field is the number `uid`.
pub open spec fn lookup(ls: Seq<Seq<char>>, uid: u32, min: nat, field: int) -> Option<Seq<char>>
    decreases ls.len(),
{
    if ls.len() == 0 {
        None
    } else if split_on(ls[0], ':').len() >= min && parse_u32(split_on(ls[0], ':')[2]) == Some(
        uid,
    ) {
        Some(split_on(ls[0], ':')[field])
    } else {
        lookup(ls.drop_first(), uid, min, field)
    }
}

/// First word of the first line of `ls` that has at least three words and
/// whose second word is the number `uid`.
pub open spec fn session_lookup(ls: Seq<Seq<char>>, uid: u32) -> Option<Seq<char>>
    decreases ls.len(),
{
    if ls.len() == 0 {
        None
    } else if words(ls[0]).len() >= 3 && parse_u32(words(ls[0])[1]) == Some(uid) {
        Some(words(ls[0])[0])
    } else {
        session_lookup(ls.drop_first(), uid)
    }
}

pub open spec fn opt_view(o: Option<String>) -> Option<Seq<char>> {
    match o {
        Some(s) => Some(s@),
        None => None,
    }
}

proof fn lemma_split_nonempty(s: Seq<char>, sep: char)
    ensures
        split_on(s, sep).len() >= 1,
    decreases s.len(),
{
    if s.len() > 0 {
        lemma_split_nonempty(s.drop_last(), sep);
    }
}

proof fn lemma_words_last(s: Seq<char>)
    requires
        s.len() >= 1,
        !white(s.last()),
    ensures
        words(s).len() >= 1,
    decreases s.len(),
{
    if s.len() >= 2 && !white(s[s.len() - 2]) {
        lemma_words_last(s.drop_last());
    }
}

proof fn lemma_split_step(pre: Seq<char>, c: char, sep: char)
    ensures
        split_on(pre.push(c), sep) == if c == sep {
            split_on(pre, sep).push(Seq::empty())
        } else {
            split_on(pre, sep).update(
                split_on(pre, sep).len() - 1,
                split_on(pre, sep).last().push(c),
            )
        },
{
    assert(pre.push(c).drop_last() =~= pre);
}

proof fn lemma_words_step(pre: Seq<char>, c: char)
    ensures
        words(pre.push(c)) == if white(c) {
            words(pre)
        } else if pre.len() >= 1 && !white(pre.last()) {
            words(pre).update(words(pre).len() - 1, words(pre).last().push(c))
        } else {
            words(pre).push(seq![c])
        },
{
    let next = pre.push(c);
    assert(next.drop_last() =~= pre);
    if pre.len() >= 1 {
        assert(next[next.len() - 2] == pre.last());
    }
}

/// Whether the range `ab` of `s` holds exactly `p`.
pub open spec fn piece(s: Seq<char>, ab: (usize, usize), p: Seq<char>) -> bool {
    &&& ab.0 <= ab.1
    &&& ab.1 <= s.len()
    &&& s.subrange(ab.0 as int, ab.1 as int) == p
}

/// Whether the ranges `r` cut out of `s` exactly the pieces `ps`.
pub open spec fn cuts(s: Seq<char>, r: Seq<(usize, usize)>, ps: Seq<Seq<char>>) -> bool {
    &&& r.len() == ps.len()
    &&& forall|k: int| 0 <= k < r.len() ==> #[trigger] piece(s, r[k], ps[k])
}

/// Piece boundaries of `s` cut at `sep`.
fn split_ranges(s: &str, sep: char) -> (r: Vec<(usize, usize)>)
    ensures
        cuts(s@, r@, split_on(s@, sep)),
{
    let n = s.unicode_len();
    let mut r: Vec<(usize, usize)> = Vec::new();
    let mut start: usize = 0;
    let mut i: usize = 0;
    assert(split_on(s@.subrange(0, 0), sep) =~= seq![Seq::<char>::empty()]);
    assert(s@.subrange(0, 0) =~= Seq::<char>::empty());
    while i < n
        invariant
            n == s@.len(),
            start <= i <= n,
            cuts(s@, r@.push((start, i)), split_on(s@.subrange(0, i as int), sep)),
        decreases n - i,
    {
        let ghost pre = s@.subrange(0, i as int);
        let ghost old_r = r@.push((start, i));
        let c = s.get_char(i);
        assert(s@.subrange(0, i + 1) =~= pre.push(c));
        proof {
            lemma_split_step(pre, c, sep);
            lemma_split_nonempty(pre, sep);
        }
        let ghost ps = split_on(s@.subrange(0, i + 1), sep);
        if c == sep {
            r.push((start, i));
            start = i + 1;
            proof {
                let nr = r@.push((start, (i + 1) as usize));
                assert forall|k: int| 0 <= k < nr.len() implies #[trigger] piece(s@, nr[k], ps[k]) by {
                    if k < nr.len() - 1 {
                        assert(nr[k] == old_r[k]);
                        assert(ps[k] == split_on(pre, sep)[k]);
                        assert(piece(s@, old_r[k], split_on(pre, sep)[k]));
                    } else {
                        assert(s@.subrange(start as int, i + 1) =~= Seq::<char>::empty());
                    }
                }
                assert(cuts(s@, nr, ps));
            }
        } else {
            proof {
                let nr = r@.push((start, (i + 1) as usize));
                assert forall|k: int| 0 <= k < nr.len() implies #[trigger] piece(s@, nr[k], ps[k]) by {
                    if k < nr.len() - 1 {
                        assert(nr[k] == old_r[k]);
                        assert(ps[k] == split_on(pre, sep)[k]);
                        assert(piece(s@, old_r[k], split_on(pre, sep)[k]));
                    } else {
                        assert(old_r[k] == (start, i));
                        assert(piece(s@, old_r[k], split_on(pre, sep)[k]));
                        assert(s@.subrange(start as int, i as int) == split_on(pre, sep)[k]);
                        assert(s@.subrange(start as int, i + 1) =~= s@.subrange(
                            start as int,
                            i as int,
                        ).push(c));
                    }
                }
                assert(cuts(s@, nr, ps));
            }
        }
        i = i + 1;
    }
    r.push((start, n));
    assert(s@.subrange(0, n as int) =~= s@);
    r
}

/// Line boundaries of `s` (see `lines_of`).
fn line_ranges(s: &str) -> (r: Vec<(usize, usize)>)
    ensures
        cuts(s@, r@, lines_of(s@)),
{
    let pieces = split_ranges(s, '\n');
    proof {
        lemma_split_nonempty(s@, '\n');
    }
    let last = pieces.len() - 1;
    let count = if pieces[last].0 == pieces[last].1 {
        last
    } else {
        pieces.len()
    };
    assert(split_on(s@, '\n')[last as int] == split_on(s@, '\n').last());
    assert(piece(s@, pieces@[last as int], split_on(s@, '\n')[last as int]));
    let mut r: Vec<(usize, usize)> = Vec::new();
    let mut k: usize = 0;
    while k < count
        invariant
            count <= pieces@.len(),
            count == lines_of(s@).len(),
            cuts(s@, pieces@, split_on(s@, '\n')),
            k <= count,
            cuts(s@, r@, lines_of(s@).subrange(0, k as int)),
        decreases count - k,
    {
        let (a, b) = pieces[k];
        assert(pieces@[k as int] == (a, b));
        assert(piece(s@, pieces@[k as int], split_on(s@, '\n')[k as int]));
        assert(a <= b <= s@.len());
        assert(s@.subrange(a as int, b as int) == split_on(s@, '\n')[k as int]);
        let ghost line = lines_of(s@)[k as int];
        if k + 1 < pieces.len() && b > a && s.get_char(b - 1) == '\r' {
            assert(s@.subrange(a as int, b - 1) =~= split_on(s@, '\n')[k as int].drop_last());
            r.push((a, b - 1));
            assert(s@.subrange(a as int, b - 1) == line);
        } else {
            r.push((a, b));
            assert(s@.subrange(a as int, b as int) == line);
        }
        k = k + 1;
        assert forall|j: int| 0 <= j < r@.len() implies #[trigger] piece(
            s@,
            r@[j],
            lines_of(s@).subrange(0, k as int)[j],
        ) by {
            if j < k - 1 {
                assert(lines_of(s@).subrange(0, k as int)[j] == lines_of(s@).subrange(0, k - 1)[j]);
            }
        }
        assert(cuts(s@, r@, lines_of(s@).subrange(0, k as int)));
    }
    assert(lines_of(s@).subrange(0, count as int) =~= lines_of(s@));
    r
}

/// Word boundaries of `s` (see `words`).
fn word_ranges(s: &str) -> (r: Vec<(usize, usize)>)
    ensures
        cuts(s@, r@, words(s@)),
{
    let n = s.unicode_len();
    let mut r: Vec<(usize, usize)> = Vec::new();
    let mut in_word = false;
    let mut start: usize = 0;
    let mut i: usize = 0;
    assert(words(s@.subrange(0, 0)) =~= Seq::<Seq<char>>::empty());
    while i < n
        invariant
            n == s@.len(),
            start <= i <= n,
            in_word ==> i > 0 && !white(s@[i - 1]),
            !in_word ==> i == 0 || white(s@[i - 1]),
            in_word ==> cuts(s@, r@.push((start, i)), words(s@.subrange(0, i as int))),
            !in_word ==> cuts(s@, r@, words(s@.subrange(0, i as int))),
        decreases n - i,
    {
        let ghost pre = s@.subrange(0, i as int);
        let ghost old_r = if in_word {
            r@.push((start, i))
        } else {
            r@
        };
        let c = s.get_char(i);
        assert(s@.subrange(0, i + 1) =~= pre.push(c));
        proof {
            lemma_words_step(pre, c);
            if i > 0 {
                assert(pre.last() == s@[i - 1]);
            }
        }
        let ghost ws = words(s@.subrange(0, i + 1));
        if is_white(c) {
            if in_word {
                r.push((start, i));
                in_word = false;
            }
            assert(r@ == old_r);
        } else {
            if in_word {
                proof {
                    lemma_words_last(pre);
                    let nr = r@.push((start, (i + 1) as usize));
                    assert forall|k: int| 0 <= k < nr.len() implies #[trigger] piece(s@, nr[k], ws[k]) by {
                        if k < nr.len() - 1 {
                            assert(nr[k] == old_r[k]);
                            assert(ws[k] == words(pre)[k]);
                            assert(piece(s@, old_r[k], words(pre)[k]));
                        } else {
                            assert(old_r[k] == (start, i));
                            assert(piece(s@, old_r[k], words(pre)[k]));
                            assert(s@.subrange(start as int, i as int) == words(pre)[k]);
                            assert(s@.subrange(start as int, i + 1) =~= s@.subrange(
                                start as int,
                                i as int,
                            ).push(c));
                        }
                    }
                    assert(cuts(s@, nr, ws));
                }
            } else {
                start = i;
                in_word = true;
                proof {
                    let nr = r@.push((start, (i + 1) as usize));
                    assert forall|k: int| 0 <= k < nr.len() implies #[trigger] piece(s@, nr[k], ws[k]) by {
                        if k < nr.len() - 1 {
                            assert(nr[k] == old_r[k]);
                            assert(ws[k] == words(pre)[k]);
                            assert(piece(s@, old_r[k], words(pre)[k]));
                        } else {
                            assert(s@.subrange(start as int, i + 1) =~= seq![c]);
                        }
                    }
                    assert(cuts(s@, nr, ws));
                }
            }
        }
        i = i + 1;
    }
    if in_word {
        r.push((start, n));
    }
    assert(s@.subrange(0, n as int) =~= s@);
    r
}

/// Whether `c` is white space.
pub fn is_white(c: char) -> (r: bool)
    ensures
        r == white(c),
{
    ('\t' <= c && c <= '\r') || c == ' ' || c == '\u{85}' || c == '\u{a0}' || c == '\u{1680}' || (
    '\u{2000}' <= c && c <= '\u{200a}') || c == '\u{2028}' || c == '\u{2029}' || c == '\u{202f}'
        || c == '\u{205f}' || c == '\u{3000}'
}

/// The number written in `s` (see `parse_u32`).
pub fn parse_decimal_u32(s: &str) -> (r: Option<u32>)
    ensures
        r == parse_u32(s@),
{
    let n = s.unicode_len();
    let from: usize = if n > 0 && s.get_char(0) == '+' {
        1
    } else {
        0
    };
    let ghost d = unsigned_part(s@);
    assert(d =~= s@.subrange(from as int, n as int));
    if from == n {
        assert(d.len() == 0);
        return None;
    }
    let mut value: u64 = 0;
    let mut over = false;
    let mut i: usize = from;
    while i < n
        invariant
            n == s@.len(),
            from <= i <= n,
            d == s@.subrange(from as int, n as int),
            d == unsigned_part(s@),
            forall|j: int| from <= j < i ==> is_digit(s@[j]),
            !over ==> value == digits_value(s@.subrange(from as int, i as int)) && value
                <= u32::MAX,
            over ==> digits_value(s@.subrange(from as int, i as int)) > u32::MAX,
        decreases n - i,
    {
        let c = s.get_char(i);
        if !('0' <= c && c <= '9') {
            assert(d[i - from] == c);
            assert(!is_digit(d[i - from]));
            proof {
                lemma_not_digits(s@, i - from);
            }
            return None;
        }
        let ghost pre = s@.subrange(from as int, i as int);
        assert(s@.subrange(from as int, i + 1).drop_last() =~= pre);
        proof {
            assert(digits_value(pre) >= 0) by {
                lemma_digits_nonneg(pre, i - from);
            }
        }
        if !over {
            let digit = (c as u32 - '0' as u32) as u64;
            let next = value * 10 + digit;
            if next > 4294967295 {
                over = true;
            } else {
                value = next;
            }
        }
        i = i + 1;
    }
    assert forall|j: int| 0 <= j < d.len() implies is_digit(#[trigger] d[j]) by {
        assert(d[j] == s@[from + j]);
    }
    if over {
        None
    } else {
        Some(value as u32)
    }
}

/// Field `field` of the first user-database line with at least `min` fields
/// whose uid field is `uid` (see `lookup`).
fn field_lookup(text: &str, uid: u32, min: usize, field: usize) -> (r: Option<String>)
    requires
        3 <= min,
        field < min,
    ensures
        opt_view(r) == lookup(lines_of(text@), uid, min as nat, field as int),
{
    let lines = line_ranges(text);
    let ghost ls = lines_of(text@);
    assert(ls.subrange(0, ls.len() as int) =~= ls);
    let mut k: usize = 0;
    while k < lines.len()
        invariant
            3 <= min,
            field < min,
            ls == lines_of(text@),
            cuts(text@, lines@, ls),
            k <= ls.len(),
            lookup(ls, uid, min as nat, field as int) == lookup(
                ls.subrange(k as int, ls.len() as int),
                uid,
                min as nat,
                field as int,
            ),
        decreases ls.len() - k,
    {
        let (a, b) = lines[k];
        assert(lines@[k as int] == (a, b));
        assert(piece(text@, lines@[k as int], ls[k as int]));
        let line = text.substring_char(a, b);
        let ghost rest = ls.subrange(k as int, ls.len() as int);
        assert(rest[0] == ls[k as int]);
        assert(rest.drop_first() =~= ls.subrange(k + 1, ls.len() as int));
        let fields = split_ranges(line, ':');
        let ghost fs = split_on(line@, ':');
        if fields.len() >= min {
            let (a2, b2) = fields[2];
            assert(fields@[2] == (a2, b2));
            assert(piece(line@, fields@[2], fs[2]));
            let id = line.substring_char(a2, b2);
            if let Some(v) = parse_decimal_u32(id) {
                if v == uid {
                    let (af, bf) = fields[field];
                    assert(fields@[field as int] == (af, bf));
                    assert(piece(line@, fields@[field as int], fs[field as int]));
                    let f = line.substring_char(af, bf);
                    return Some(f.to_owned());
                }
            }
        }
        k = k + 1;
    }
    assert(ls.subrange(ls.len() as int, ls.len() as int) =~= Seq::<Seq<char>>::empty());
    None
}

/// Name of user `uid` in the user database text `passwd`.
pub fn username_for(passwd: &str, uid: u32) -> (r: Option<String>)
    ensures
        opt_view(r) == lookup(lines_of(passwd@), uid, 3, 0),
{
    field_lookup(passwd, uid, 3, 0)
}

/// Home directory of user `uid` in the user database text `passwd`.
pub fn home_for(passwd: &str, uid: u32) -> (r: Option<String>)
    ensures
        opt_view(r) == lookup(lines_of(passwd@), uid, 6, 5),
{
    field_lookup(passwd, uid, 6, 5)
}

/// Where user `uid` keeps their policy file: under the home directory that
/// `passwd` gives, else under `/home/<uid>`.
pub open spec fn user_config_file(passwd: Seq<char>, uid: u32) -> Seq<char> {
    match lookup(lines_of(passwd), uid, 6, 5) {
        Some(home) => home + "/.config/notify-done/config.toml"@,
        None => "/home/"@ + decimal(uid as nat) + "/.config/notify-done/config.toml"@,
    }
}

/// The policy file path of user `uid` (see `user_config_file`).
pub fn user_config_path(passwd: &str, uid: u32) -> (r: String)
    ensures
        r@ == user_config_file(passwd@, uid),
{
    let mut path = match home_for(passwd, uid) {
        Some(home) => home,
        None => {
            let mut p = "/home/".to_owned();
            crate::text::push_decimal(&mut p, uid as u64);
            p
        },
    };
    path.append("/.config/notify-done/config.toml");
    path
}

/// The session of user `uid` in the login manager's session listing
/// (`SESSION UID USER ...` per line; see `session_lookup`).
pub fn session_id_for(listing: &str, uid: u32) -> (r: Option<String>)
    ensures
        opt_view(r) == session_lookup(lines_of(listing@), uid),
{
    let lines = line_ranges(listing);
    let ghost ls = lines_of(listing@);
    assert(ls.subrange(0, ls.len() as int) =~= ls);
    let mut k: usize = 0;
    while k < lines.len()
        invariant
            ls == lines_of(listing@),
            cuts(listing@, lines@, ls),
            k <= ls.len(),
            session_lookup(ls, uid) == session_lookup(ls.subrange(k as int, ls.len() as int), uid),
        decreases ls.len() - k,
    {
        let (a, b) = lines[k];
        assert(lines@[k as int] == (a, b));
        assert(piece(listing@, lines@[k as int], ls[k as int]));
        let line = listing.substring_char(a, b);
        let ghost rest = ls.subrange(k as int, ls.len() as int);
        assert(rest[0] == ls[k as int]);
        assert(rest.drop_first() =~= ls.subrange(k + 1, ls.len() as int));
        let ws = word_ranges(line);
        let ghost wv = words(line@);
        if ws.len() >= 3 {
            let (a1, b1) = ws[1];
            assert(ws@[1] == (a1, b1));
            assert(piece(line@, ws@[1], wv[1]));
            let id = line.substring_char(a1, b1);
            if let Some(v) = parse_decimal_u32(id) {
                if v == uid {
                    let (a0, b0) = ws[0];
                    assert(ws@[0] == (a0, b0));
                    assert(piece(line@, ws@[0], wv[0]));
                    let w = line.substring_char(a0, b0);
                    return Some(w.to_owned());
                }
            }
        }
        k = k + 1;
    }
    assert(ls.subrange(ls.len() as int, ls.len() as int) =~= Seq::<Seq<char>>::empty());
    None
}

proof fn lemma_not_digits(s: Seq<char>, k: int)
    requires
        0 <= k < unsigned_part(s).len(),
        !is_digit(unsigned_part(s)[k]),
    ensures
        parse_u32(s) is None,
{
    let d = unsigned_part(s);
    assert(!(forall|i: int| 0 <= i < d.len() ==> is_digit(#[trigger] d[i])));
}

proof fn lemma_digits_nonneg(s: Seq<char>, n: int)
    requires
        n == s.len(),
        forall|j: int| 0 <= j < s.len() ==> is_digit(#[trigger] s[j]),
    ensures
        digits_value(s) >= 0,
    decreases s.len(),
{
    if s.len() > 0 {
        assert(is_digit(s.last()));
        lemma_digits_nonneg(s.drop_last(), n - 1);
    }
}

} // verus!
