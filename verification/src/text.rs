//! Text: order, concatenation, splitting and decimal numbers.

use vstd::prelude::*;
use vstd::string::{StrSliceExecFns, StringExecFns};

verus! {

/// `String::push`: the character goes to the end of the text.
pub assume_specification[ String::push ](s: &mut String, c: char)
    ensures
        final(s)@ == old(s)@.push(c),
;

/// The values of a list of texts.
pub open spec fn texts_of(v: Seq<String>) -> Seq<Seq<char>> {
    v.map_values(|s: String| s@)
}

// ── Characters ──────────────────────────────────────────────────────────

/// The characters of a text.
pub fn chars_of(s: &str) -> (r: Vec<char>)
    ensures
        r@ == s@,
{
    let mut r: Vec<char> = Vec::new();
    for c in it: s.chars()
        invariant
            r@ == it.seq().take(it.index() as int),
            it.seq() == s@,
    {
        r.push(c);
        assert(it.seq().take(it.index() as int + 1) =~= it.seq().take(it.index() as int).push(c));
    }
    assert(s@.take(s@.len() as int) =~= s@);
    r
}

/// The text made of `chars[from..to]`.
pub fn text_between(chars: &Vec<char>, from: usize, to: usize) -> (r: String)
    requires
        from <= to <= chars.len(),
    ensures
        r@ == chars@.subrange(from as int, to as int),
{
    let mut r = String::new();
    let mut i: usize = from;
    while i < to
        invariant
            from <= i <= to <= chars.len(),
            r@ == chars@.subrange(from as int, i as int),
        decreases to - i,
    {
        r.push(chars[i]);
        assert(chars@.subrange(from as int, i + 1) =~= chars@.subrange(from as int, i as int).push(
            chars@[i as int],
        ));
        i += 1;
    }
    r
}

/// Are the two texts the same?
pub fn same_text(a: &str, b: &str) -> (r: bool)
    ensures
        r == (a@ == b@),
{
    a.to_owned() == b.to_owned()
}

/// Does `whole` hold `part` at position `i`?
pub open spec fn occurs_at(whole: Seq<char>, part: Seq<char>, i: int) -> bool {
    0 <= i && i + part.len() <= whole.len() && whole.subrange(i, i + part.len()) == part
}

/// Is there `part` at position `i` of `whole`?
pub fn found_at(whole: &Vec<char>, part: &Vec<char>, i: usize) -> (r: bool)
    requires
        i <= whole.len(),
    ensures
        r == occurs_at(whole@, part@, i as int),
{
    if part.len() > whole.len() - i {
        return false;
    }
    let mut k: usize = 0;
    while k < part.len()
        invariant
            i + part.len() <= whole.len(),
            k <= part.len(),
            forall|j: int| 0 <= j < k ==> whole@[i + j] == part@[j],
        decreases part.len() - k,
    {
        if whole[i + k] != part[k] {
            assert(whole@.subrange(i as int, i + part@.len())[k as int] != part@[k as int]);
            return false;
        }
        k += 1;
    }
    assert(whole@.subrange(i as int, i + part@.len()) =~= part@);
    true
}

/// The text without the prefix, if it has it.
pub open spec fn after_prefix(s: Seq<char>, prefix: Seq<char>) -> Option<Seq<char>> {
    if occurs_at(s, prefix, 0) {
        Some(s.skip(prefix.len() as int))
    } else {
        None
    }
}

/// The text without the suffix, if it has it.
pub open spec fn before_suffix(s: Seq<char>, suffix: Seq<char>) -> Option<Seq<char>> {
    if occurs_at(s, suffix, s.len() - suffix.len()) {
        Some(s.take(s.len() - suffix.len()))
    } else {
        None
    }
}

/// The text without the prefix, if it has it.
pub fn strip_prefix(s: &str, prefix: &str) -> (r: Option<String>)
    ensures
        match r {
            Some(t) => after_prefix(s@, prefix@) == Some(t@),
            None => after_prefix(s@, prefix@) is None,
        },
{
    let chars = chars_of(s);
    let part = chars_of(prefix);
    if found_at(&chars, &part, 0) {
        let t = text_between(&chars, part.len(), chars.len());
        assert(t@ =~= s@.skip(prefix@.len() as int));
        Some(t)
    } else {
        None
    }
}

/// The text without the suffix, if it has it.
pub fn strip_suffix(s: &str, suffix: &str) -> (r: Option<String>)
    ensures
        match r {
            Some(t) => before_suffix(s@, suffix@) == Some(t@),
            None => before_suffix(s@, suffix@) is None,
        },
{
    let chars = chars_of(s);
    let part = chars_of(suffix);
    if part.len() <= chars.len() && found_at(&chars, &part, chars.len() - part.len()) {
        let t = text_between(&chars, 0, chars.len() - part.len());
        assert(t@ =~= s@.take(s@.len() - suffix@.len()));
        Some(t)
    } else {
        None
    }
}

/// The first position at or after `from` where `part` occurs.
pub open spec fn first_from(whole: Seq<char>, part: Seq<char>, from: int) -> Option<int>
    decreases whole.len() + 1 - from,
{
    if from < 0 || from + part.len() > whole.len() {
        None
    } else if occurs_at(whole, part, from) {
        Some(from)
    } else {
        first_from(whole, part, from + 1)
    }
}

/// The first position at or after `from` where `part` occurs.
pub fn find_from(whole: &Vec<char>, part: &Vec<char>, from: usize) -> (r: Option<usize>)
    requires
        from <= whole.len(),
    ensures
        match r {
            Some(i) => first_from(whole@, part@, from as int) == Some(i as int) && from <= i
                && i + part.len() <= whole.len(),
            None => first_from(whole@, part@, from as int) is None,
        },
{
    let mut i: usize = from;
    while part.len() <= whole.len() - i
        invariant
            from <= i <= whole.len(),
            first_from(whole@, part@, from as int) == first_from(whole@, part@, i as int),
        decreases whole.len() - i,
    {
        if found_at(whole, part, i) {
            return Some(i);
        }
        if i == whole.len() {
            assert(first_from(whole@, part@, i + 1) is None);
            return None;
        }
        i += 1;
    }
    None
}

/// The pieces between the occurrences of `sep`, at most `limit` of them: the
/// last one holds the rest.
pub open spec fn split_limited(s: Seq<char>, sep: Seq<char>, limit: nat) -> Seq<Seq<char>>
    decreases limit,
{
    if limit <= 1 {
        seq![s]
    } else {
        match first_from(s, sep, 0) {
            Some(i) => seq![s.take(i)] + split_limited(
                s.skip(i + sep.len()),
                sep,
                (limit - 1) as nat,
            ),
            None => seq![s],
        }
    }
}

/// All pieces between the occurrences of `sep`: a text of some length has at
/// most one piece more than characters.
pub open spec fn split_all(s: Seq<char>, sep: Seq<char>) -> Seq<Seq<char>> {
    split_limited(s, sep, (s.len() + 1) as nat)
}

/// Split a text into at most `limit` pieces.
pub fn split_text(s: &str, sep: &str, limit: u128) -> (r: Vec<String>)
    requires
        limit >= 1,
    ensures
        texts_of(r@) == split_limited(s@, sep@, limit as nat),
{
    let mut rest = chars_of(s);
    let part = chars_of(sep);
    let mut r: Vec<String> = Vec::new();
    let mut left: u128 = limit;
    assert(texts_of(r@) + split_limited(rest@, sep@, left as nat) =~= split_limited(
        s@,
        sep@,
        limit as nat,
    ));
    assert(texts_of(r@).push(rest@) =~= seq![s@]);
    while left > 1
        invariant_except_break
            part@ == sep@,
            1 <= left <= limit,
            left == 1 ==> texts_of(r@).push(rest@) == split_limited(s@, sep@, limit as nat),
            texts_of(r@) + split_limited(rest@, sep@, left as nat) == split_limited(
                s@,
                sep@,
                limit as nat,
            ),
        ensures
            texts_of(r@).push(rest@) == split_limited(s@, sep@, limit as nat),
        decreases left,
    {
        match find_from(&rest, &part, 0) {
            None => {
                assert(texts_of(r@) + seq![rest@] =~= texts_of(r@).push(rest@));
                break;
            },
            Some(i) => {
                let piece = text_between(&rest, 0, i);
                let ghost had = texts_of(r@);
                let ghost before = rest@;
                let tail = chars_between(&rest, i + part.len(), rest.len());
                proof {
                    assert(piece@ =~= before.take(i as int));
                    assert(tail@ =~= before.skip(i + sep@.len()));
                    assert(texts_of(r@.push(piece)) =~= had.push(piece@));
                    assert(had.push(piece@) + split_limited(tail@, sep@, (left - 1) as nat) =~= had
                        + (seq![piece@] + split_limited(tail@, sep@, (left - 1) as nat)));
                }
                r.push(piece);
                rest = tail;
                left -= 1;
                assert(texts_of(r@) + seq![rest@] =~= texts_of(r@).push(rest@));
            },
        }
    }
    let last = text_between(&rest, 0, rest.len());
    assert(last@ =~= rest@);
    assert(texts_of(r@.push(last)) =~= texts_of(r@).push(last@));
    r.push(last);
    r
}

/// Split a text at every occurrence of a separator.
pub fn split_everywhere(s: &str, sep: &str) -> (r: Vec<String>)
    ensures
        texts_of(r@) == split_all(s@, sep@),
{
    split_text(s, sep, s.unicode_len() as u128 + 1)
}

/// The first occurrence, when none comes before it.
pub proof fn lemma_first_found(whole: Seq<char>, part: Seq<char>, from: int, i: int)
    requires
        0 <= from <= i,
        occurs_at(whole, part, i),
        forall|j: int| from <= j < i ==> !occurs_at(whole, part, j),
    ensures
        first_from(whole, part, from) == Some(i),
    decreases i - from,
{
    if from < i {
        lemma_first_found(whole, part, from + 1, i);
    }
}

/// There is no occurrence when no position has one.
pub proof fn lemma_none_found(whole: Seq<char>, part: Seq<char>, from: int)
    requires
        0 <= from,
        forall|j: int| from <= j ==> !occurs_at(whole, part, j),
    ensures
        first_from(whole, part, from) is None,
    decreases whole.len() + 1 - from,
{
    if from + part.len() <= whole.len() {
        lemma_none_found(whole, part, from + 1);
    }
}

/// Two texts without the separator between them, split at the separator.
pub proof fn lemma_split_two(a: Seq<char>, c: char, b: Seq<char>)
    requires
        !a.contains(c),
        !b.contains(c),
    ensures
        split_all(a + seq![c] + b, seq![c]) == seq![a, b],
{
    let s = a + seq![c] + b;
    let sep = seq![c];
    assert(s.subrange(a.len() as int, a.len() as int + 1) =~= sep);
    assert forall|j: int| 0 <= j < a.len() implies !occurs_at(s, sep, j) by {
        assert(s[j] == a[j]);
        assert(s.subrange(j, j + 1)[0] == s[j]);
    }
    lemma_first_found(s, sep, 0, a.len() as int);
    assert(s.take(a.len() as int) =~= a);
    assert(s.skip(a.len() as int + 1) =~= b);
    assert forall|j: int| 0 <= j implies !occurs_at(b, sep, j) by {
        if j + 1 <= b.len() {
            assert(b.subrange(j, j + 1)[0] == b[j]);
        }
    }
    lemma_none_found(b, sep, 0);
    assert(split_limited(b, sep, s.len() as nat) =~= seq![b]);
    assert(split_all(s, sep) =~= seq![a, b]);
}

/// The characters `chars[from..to]`.
fn chars_between(chars: &Vec<char>, from: usize, to: usize) -> (r: Vec<char>)
    requires
        from <= to <= chars.len(),
    ensures
        r@ == chars@.subrange(from as int, to as int),
{
    let mut r: Vec<char> = Vec::new();
    let mut i: usize = from;
    while i < to
        invariant
            from <= i <= to <= chars.len(),
            r@ =~= chars@.subrange(from as int, i as int),
        decreases to - i,
    {
        r.push(chars[i]);
        i += 1;
    }
    r
}

/// The text without the slashes at its end.
pub open spec fn without_slashes(s: Seq<char>) -> Seq<char>
    decreases s.len(),
{
    if s.len() > 0 && s.last() == '/' {
        without_slashes(s.drop_last())
    } else {
        s
    }
}

/// The text without the slashes at its end.
pub fn trim_slashes(s: &str) -> (r: String)
    ensures
        r@ == without_slashes(s@),
{
    let chars = chars_of(s);
    let mut end: usize = chars.len();
    assert(chars@.take(end as int) =~= chars@);
    while end > 0 && chars[end - 1] == '/'
        invariant
            end <= chars.len(),
            without_slashes(chars@) == without_slashes(chars@.take(end as int)),
        decreases end,
    {
        assert(chars@.take(end as int).drop_last() =~= chars@.take(end - 1));
        end -= 1;
    }
    let r = text_between(&chars, 0, end);
    assert(r@ =~= chars@.take(end as int));
    r
}

/// Is the character white space?
pub open spec fn is_space(c: char) -> bool {
    let n = c as int;
    ||| 0x9 <= n <= 0xd
    ||| n == 0x20
    ||| n == 0x85
    ||| n == 0xa0
    ||| n == 0x1680
    ||| 0x2000 <= n <= 0x200a
    ||| n == 0x2028
    ||| n == 0x2029
    ||| n == 0x202f
    ||| n == 0x205f
    ||| n == 0x3000
}

fn space(c: char) -> (r: bool)
    ensures
        r == is_space(c),
{
    let n = c as u32;
    (0x9 <= n && n <= 0xd) || n == 0x20 || n == 0x85 || n == 0xa0 || n == 0x1680 || (0x2000 <= n
        && n <= 0x200a) || n == 0x2028 || n == 0x2029 || n == 0x202f || n == 0x205f || n == 0x3000
}

/// The text without the white space at its end.
pub open spec fn without_trailing_space(s: Seq<char>) -> Seq<char>
    decreases s.len(),
{
    if s.len() > 0 && is_space(s.last()) {
        without_trailing_space(s.drop_last())
    } else {
        s
    }
}

/// The text without the white space at its start.
pub open spec fn without_leading_space(s: Seq<char>) -> Seq<char>
    decreases s.len(),
{
    if s.len() > 0 && is_space(s[0]) {
        without_leading_space(s.skip(1))
    } else {
        s
    }
}

/// The text without the white space around it.
pub open spec fn trimmed(s: Seq<char>) -> Seq<char> {
    without_trailing_space(without_leading_space(s))
}

/// The text without the white space around it.
pub fn trim(s: &str) -> (r: String)
    ensures
        r@ == trimmed(s@),
{
    let chars = chars_of(s);
    let mut start: usize = 0;
    assert(chars@.skip(0) =~= chars@);
    while start < chars.len() && space(chars[start])
        invariant
            start <= chars.len(),
            without_leading_space(chars@) == without_leading_space(chars@.skip(start as int)),
        decreases chars.len() - start,
    {
        assert(chars@.skip(start as int).skip(1) =~= chars@.skip(start + 1));
        start += 1;
    }
    let ghost body = chars@.skip(start as int);
    let mut end: usize = chars.len();
    assert(chars@.subrange(start as int, end as int) =~= body);
    while end > start && space(chars[end - 1])
        invariant
            start <= end <= chars.len(),
            without_trailing_space(body) == without_trailing_space(
                chars@.subrange(start as int, end as int),
            ),
        decreases end,
    {
        assert(chars@.subrange(start as int, end as int).drop_last() =~= chars@.subrange(
            start as int,
            end - 1,
        ));
        end -= 1;
    }
    text_between(&chars, start, end)
}

// ── Order ───────────────────────────────────────────────────────────────

/// Lexicographic order by code point.
pub open spec fn precedes(a: Seq<char>, b: Seq<char>) -> bool
    decreases a.len(),
{
    if a.len() == 0 {
        true
    } else if b.len() == 0 {
        false
    } else if a[0] != b[0] {
        (a[0] as int) < (b[0] as int)
    } else {
        precedes(a.skip(1), b.skip(1))
    }
}

/// The lexicographic order is reflexive and total, and two texts that precede
/// each other are the same.
pub proof fn lemma_precedes_total(a: Seq<char>, b: Seq<char>)
    ensures
        precedes(a, a),
        precedes(a, b) || precedes(b, a),
        precedes(a, b) && precedes(b, a) ==> a == b,
    decreases a.len(),
{
    if a.len() > 0 {
        lemma_precedes_total(a.skip(1), b.skip(1));
        if b.len() > 0 && a[0] == b[0] && a.skip(1) == b.skip(1) {
            assert(a =~= seq![a[0]] + a.skip(1));
            assert(b =~= seq![b[0]] + b.skip(1));
        }
    } else if b.len() == 0 {
        assert(a =~= b);
    }
}

/// The lexicographic order is transitive.
pub proof fn lemma_precedes_transitive(a: Seq<char>, b: Seq<char>, c: Seq<char>)
    requires
        precedes(a, b),
        precedes(b, c),
    ensures
        precedes(a, c),
    decreases a.len(),
{
    if a.len() > 0 {
        if a[0] == b[0] && b[0] == c[0] {
            lemma_precedes_transitive(a.skip(1), b.skip(1), c.skip(1));
        }
    }
}

/// The code point of a character.
fn code_point(c: char) -> (r: u32)
    ensures
        r == c as int,
{
    c as u32
}

fn chars_precede(a: &Vec<char>, b: &Vec<char>) -> (r: bool)
    ensures
        r == precedes(a@, b@),
{
    let mut i: usize = 0;
    assert(a@.skip(0) =~= a@ && b@.skip(0) =~= b@);
    while i < a.len() && i < b.len()
        invariant
            i <= a.len(),
            i <= b.len(),
            precedes(a@, b@) == precedes(a@.skip(i as int), b@.skip(i as int)),
        decreases a.len() - i,
    {
        assert(a@.skip(i as int)[0] == a@[i as int] && b@.skip(i as int)[0] == b@[i as int]);
        if a[i] != b[i] {
            return code_point(a[i]) < code_point(b[i]);
        }
        assert(a@.skip(i as int).skip(1) =~= a@.skip(i + 1));
        assert(b@.skip(i as int).skip(1) =~= b@.skip(i + 1));
        i += 1;
    }
    i == a.len()
}

/// Does `a` come before `b`, or equal it?
pub fn text_precedes(a: &str, b: &str) -> (r: bool)
    ensures
        r == precedes(a@, b@),
{
    chars_precede(&chars_of(a), &chars_of(b))
}

/// Each text precedes the later ones.
pub open spec fn in_order(v: Seq<Seq<char>>) -> bool {
    forall|i: int, j: int| 0 <= i < j < v.len() ==> precedes(#[trigger] v[i], #[trigger] v[j])
}

/// Sort texts, keeping repetitions.
pub fn sort_texts(v: &Vec<String>) -> (r: Vec<String>)
    ensures
        in_order(texts_of(r@)),
        texts_of(r@).to_multiset() == texts_of(v@).to_multiset(),
{
    let mut r: Vec<String> = Vec::new();
    let mut i: usize = 0;
    assert(texts_of(r@) =~= texts_of(v@).take(0));
    while i < v.len()
        invariant
            i <= v.len(),
            in_order(texts_of(r@)),
            texts_of(r@).to_multiset() == texts_of(v@).take(i as int).to_multiset(),
        decreases v.len() - i,
    {
        let ghost before = texts_of(r@);
        let ghost x = v@[i as int]@;
        let mut k: usize = r.len();
        while k > 0 && !text_precedes(&r[k - 1], &v[i])
            invariant
                i < v.len(),
                x == v@[i as int]@,
                before == texts_of(r@),
                in_order(before),
                k <= r.len(),
                forall|j: int| k <= j < before.len() ==> precedes(x, #[trigger] before[j]),
            decreases k,
        {
            proof {
                assert(before[k - 1] == r@[k - 1]@);
                lemma_precedes_total(before[k - 1], x);
            }
            k -= 1;
        }
        r.insert(k, v[i].clone());
        proof {
            let after = texts_of(r@);
            assert(after =~= before.insert(k as int, x));
            if k > 0 {
                assert(precedes(before[k - 1], x)) by {
                    assert(before[k - 1] == r@[k - 1]@);
                }
            }
            assert forall|a: int, b: int| 0 <= a < b < after.len() implies precedes(
                #[trigger] after[a],
                #[trigger] after[b],
            ) by {
                if b == k {
                    if a < k - 1 {
                        assert(precedes(before[a], before[k - 1]));
                        lemma_precedes_transitive(before[a], before[k - 1], x);
                    }
                } else {
                    let b0 = if b < k {
                        b
                    } else {
                        b - 1
                    };
                    if a == k {
                        assert(precedes(x, before[b0]));
                    } else {
                        let a0 = if a < k {
                            a
                        } else {
                            a - 1
                        };
                        assert(precedes(before[a0], before[b0]));
                    }
                }
            }
            vstd::seq_lib::to_multiset_insert(before, k as int, x);
            assert(texts_of(v@).take(i + 1) =~= texts_of(v@).take(i as int).push(x));
            vstd::seq_lib::to_multiset_build(texts_of(v@).take(i as int), x);
        }
        i += 1;
    }
    assert(texts_of(v@).take(i as int) =~= texts_of(v@));
    r
}

/// Sort texts, keeping one of each.
pub fn sorted_unique(v: &Vec<String>) -> (r: Vec<String>)
    ensures
        in_order(texts_of(r@)),
        texts_of(r@).no_duplicates(),
        texts_of(r@).to_set() == texts_of(v@).to_set(),
{
    let sorted = sort_texts(v);
    let ghost all = texts_of(sorted@);
    let mut r: Vec<String> = Vec::new();
    let mut i: usize = 0;
    assert(texts_of(r@).to_set() =~= all.take(0).to_set());
    while i < sorted.len()
        invariant
            i <= sorted.len(),
            all == texts_of(sorted@),
            in_order(all),
            in_order(texts_of(r@)),
            texts_of(r@).no_duplicates(),
            texts_of(r@).to_set() == all.take(i as int).to_set(),
            r.len() == 0 ==> i == 0,
            r.len() > 0 ==> i > 0 && texts_of(r@).last() == all[i - 1],
        decreases sorted.len() - i,
    {
        let ghost had = texts_of(r@);
        let ghost x = all[i as int];
        proof {
            assert(all.take(i + 1) =~= all.take(i as int).push(x));
            crate::seqs::lemma_push_to_set(all.take(i as int), x);
            if r.len() > 0 {
                assert(precedes(all[i - 1], x));
            }
        }
        if r.len() > 0 && same_text(r[r.len() - 1].as_str(), sorted[i].as_str()) {
            proof {
                assert(had[had.len() - 1] == x);
                assert(had.contains(x));
                assert(had.to_set() =~= had.to_set().insert(x));
            }
        } else {
            let item = sorted[i].clone();
            proof {
                assert(texts_of(r@.push(item)) =~= had.push(x));
                assert forall|j: int| 0 <= j < had.len() implies precedes(#[trigger] had[j], x) by {
                    if j < had.len() - 1 {
                        assert(precedes(had[j], had[had.len() - 1]));
                        lemma_precedes_transitive(had[j], had[had.len() - 1], x);
                    }
                }
                if had.contains(x) {
                    let j = choose|j: int| 0 <= j < had.len() && had[j] == x;
                    if j < had.len() - 1 {
                        assert(precedes(had[j], had[had.len() - 1]));
                    }
                    lemma_precedes_total(x, had[had.len() - 1]);
                }
                crate::seqs::lemma_push_no_duplicates(had, x);
                crate::seqs::lemma_push_to_set(had, x);
                assert(in_order(had.push(x)));
            }
            r.push(item);
        }
        i += 1;
    }
    proof {
        assert(all.take(i as int) =~= all);
        lemma_same_multiset_same_set(all, texts_of(v@));
    }
    r
}

proof fn lemma_same_multiset_same_set(a: Seq<Seq<char>>, b: Seq<Seq<char>>)
    requires
        a.to_multiset() == b.to_multiset(),
    ensures
        a.to_set() == b.to_set(),
{
    a.to_multiset_ensures();
    b.to_multiset_ensures();
    assert forall|x: Seq<char>| a.to_set().contains(x) == b.to_set().contains(x) by {
        assert(a.contains(x) <==> a.to_multiset().count(x) > 0);
        assert(b.contains(x) <==> b.to_multiset().count(x) > 0);
    }
    assert(a.to_set() =~= b.to_set());
}

/// Is the text on the list?
pub fn has_text(v: &[String], s: &str) -> (r: bool)
    ensures
        r == texts_of(v@).contains(s@),
{
    let mut i: usize = 0;
    while i < v.len()
        invariant
            i <= v.len(),
            forall|j: int| 0 <= j < i ==> #[trigger] texts_of(v@)[j] != s@,
        decreases v.len() - i,
    {
        if same_text(v[i].as_str(), s) {
            assert(texts_of(v@)[i as int] == s@);
            return true;
        }
        i += 1;
    }
    false
}

/// Are the two lists the same, text by text?
pub fn same_texts(a: &Vec<String>, b: &Vec<String>) -> (r: bool)
    ensures
        r == (texts_of(a@) == texts_of(b@)),
{
    if a.len() != b.len() {
        assert(texts_of(a@).len() != texts_of(b@).len());
        return false;
    }
    let mut i: usize = 0;
    while i < a.len()
        invariant
            i <= a.len(),
            a.len() == b.len(),
            forall|j: int| 0 <= j < i ==> #[trigger] texts_of(a@)[j] == texts_of(b@)[j],
        decreases a.len() - i,
    {
        if !same_text(a[i].as_str(), b[i].as_str()) {
            assert(texts_of(a@)[i as int] != texts_of(b@)[i as int]);
            return false;
        }
        i += 1;
    }
    assert(texts_of(a@) =~= texts_of(b@));
    true
}

/// Does the text hold the part?
pub fn holds_text(s: &str, part: &str) -> (r: bool)
    ensures
        r == (first_from(s@, part@, 0) is Some),
{
    find_from(&chars_of(s), &chars_of(part), 0).is_some()
}

/// The texts that begin with the prefix, without it, in their order.
pub open spec fn suffixes(v: Seq<Seq<char>>, prefix: Seq<char>) -> Seq<Seq<char>>
    decreases v.len(),
{
    if v.len() == 0 {
        Seq::empty()
    } else {
        let rest = suffixes(v.drop_last(), prefix);
        match after_prefix(v.last(), prefix) {
            Some(tail) => rest.push(tail),
            None => rest,
        }
    }
}

/// Keep the texts that begin with the prefix, and drop it from them.
pub fn strip_prefixes(v: &Vec<String>, prefix: &str) -> (r: Vec<String>)
    ensures
        texts_of(r@) == suffixes(texts_of(v@), prefix@),
{
    let ghost all = texts_of(v@);
    let mut r: Vec<String> = Vec::new();
    assert(texts_of(r@) =~= suffixes(all.take(0), prefix@));
    let mut i: usize = 0;
    while i < v.len()
        invariant
            i <= v.len(),
            all == texts_of(v@),
            texts_of(r@) == suffixes(all.take(i as int), prefix@),
        decreases v.len() - i,
    {
        let ghost had = texts_of(r@);
        assert(all.take(i + 1).drop_last() =~= all.take(i as int));
        assert(all.take(i + 1).last() == v@[i as int]@);
        match strip_prefix(v[i].as_str(), prefix) {
            Some(tail) => {
                assert(texts_of(r@.push(tail)) =~= had.push(tail@));
                r.push(tail);
            },
            None => {},
        }
        i += 1;
    }
    assert(all.take(i as int) =~= all);
    r
}

// ── Joining ─────────────────────────────────────────────────────────────

/// The texts one after the other, with `sep` between them.
pub open spec fn joined(parts: Seq<Seq<char>>, sep: Seq<char>) -> Seq<char>
    decreases parts.len(),
{
    if parts.len() == 0 {
        Seq::empty()
    } else if parts.len() == 1 {
        parts[0]
    } else {
        joined(parts.drop_last(), sep) + sep + parts.last()
    }
}

/// Join texts with a separator.
pub fn join_texts(parts: &Vec<String>, sep: &str) -> (r: String)
    ensures
        r@ == joined(texts_of(parts@), sep@),
{
    let ghost all = texts_of(parts@);
    let mut r = String::new();
    let mut i: usize = 0;
    assert(r@ =~= joined(all.take(0), sep@));
    while i < parts.len()
        invariant
            i <= parts.len(),
            all == texts_of(parts@),
            r@ == joined(all.take(i as int), sep@),
        decreases parts.len() - i,
    {
        let ghost before = r@;
        if i > 0 {
            r.append(sep);
        }
        r.append(parts[i].as_str());
        proof {
            assert(all.take(i + 1).drop_last() =~= all.take(i as int));
            assert(all.take(i + 1).last() == parts@[i as int]@);
            if i == 0 {
                assert(before =~= Seq::empty());
            }
            assert(r@ =~= joined(all.take(i + 1), sep@));
        }
        i += 1;
    }
    assert(all.take(i as int) =~= all);
    r
}

} // verus!
