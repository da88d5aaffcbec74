//! Key terms of a text: its most frequent words, without the short ones and
//! without the words that carry no meaning of their own.

use crate::text::chars_of;
use crate::text::lowercase;
use crate::text::split_whitespace;
use crate::text::string_of;
use crate::text::to_lowercase;
use crate::text::views;
use crate::text::words;
use crate::models::texts;
use vstd::prelude::*;

verus! {

/// The words that are never key terms.
pub open spec fn stop_words() -> Seq<Seq<char>> {
    seq![
        "the"@,
        "a"@,
        "an"@,
        "and"@,
        "or"@,
        "but"@,
        "in"@,
        "on"@,
        "at"@,
        "to"@,
        "for"@,
        "of"@,
        "with"@,
        "by"@,
        "from"@,
        "is"@,
        "are"@,
        "was"@,
        "were"@,
    ]
}

/// Whether a word can be a key term: it has more than three characters and
/// it is no stop word.
pub open spec fn is_term(word: Seq<char>) -> bool {
    word.len() > 3 && !stop_words().contains(word)
}

/// The test `is_term` as a value.
pub open spec fn term_test() -> spec_fn(Seq<char>) -> bool {
    |word: Seq<char>| is_term(word)
}

/// The words of a text that can be key terms, in the order of the text, each
/// as often as it occurs.
pub open spec fn terms(folded: Seq<char>) -> Seq<Seq<char>> {
    words(folded).filter(term_test())
}

/// How often `word` stands in `q`.
pub open spec fn occurrences(q: Seq<Seq<char>>, word: Seq<char>) -> nat
    decreases q.len(),
{
    if q.len() == 0 {
        0
    } else {
        occurrences(q.drop_last(), word) + if q.last() == word {
            1nat
        } else {
            0nat
        }
    }
}

/// Where `word` first stands in `q`, or the length of `q` where it does not
/// stand in it.
pub open spec fn first_position(q: Seq<Seq<char>>, word: Seq<char>) -> int
    decreases q.len(),
{
    if q.len() == 0 {
        0
    } else {
        let before = first_position(q.drop_last(), word);
        if before < q.len() - 1 {
            before
        } else if q.last() == word {
            q.len() - 1
        } else {
            q.len() as int
        }
    }
}

/// The order of the key terms: the more frequent word comes first, and of
/// two words that are equally frequent the one that the text brings first.
pub open spec fn ranks_before(q: Seq<Seq<char>>, a: Seq<char>, b: Seq<char>) -> bool {
    ||| occurrences(q, a) > occurrences(q, b)
    ||| occurrences(q, a) == occurrences(q, b) && first_position(q, a) < first_position(q, b)
}

/// Whether `ranking` holds the first `top_n` words of `q` in the order of the
/// key terms, or all of them where `q` has fewer different words: each
/// entry stands in `q`; the entries are in order, so none occurs twice; and a
/// word of `q` is left out only when the ranking is full, and then it comes
/// after every entry.
pub open spec fn is_ranking(q: Seq<Seq<char>>, top_n: nat, ranking: Seq<Seq<char>>) -> bool {
    &&& ranking.len() <= top_n
    &&& forall|i: int| 0 <= i < ranking.len() ==> q.contains(#[trigger] ranking[i])
    &&& forall|i: int, j: int|
        0 <= i < j < ranking.len() ==> ranks_before(q, #[trigger] ranking[i], #[trigger] ranking[j])
    &&& forall|word: Seq<char>| #[trigger]
        q.contains(word) && !ranking.contains(word) ==> {
            &&& ranking.len() == top_n
            &&& forall|i: int|
                0 <= i < ranking.len() ==> ranks_before(q, #[trigger] ranking[i], word)
        }
}

/// What `first_position` and `occurrences` say of a word: where it first
/// stands it does stand, nowhere before, and it stands somewhere exactly when
/// it occurs at least once.
pub proof fn first_position_is_first(q: Seq<Seq<char>>, word: Seq<char>)
    ensures
        0 <= first_position(q, word) <= q.len(),
        first_position(q, word) < q.len() ==> q[first_position(q, word)] == word,
        forall|j: int| 0 <= j < first_position(q, word) ==> #[trigger] q[j] != word,
        first_position(q, word) < q.len() <==> occurrences(q, word) > 0,
        first_position(q, word) < q.len() <==> q.contains(word),
        occurrences(q, word) <= q.len(),
    decreases q.len(),
{
    if q.len() > 0 {
        let front = q.drop_last();
        first_position_is_first(front, word);
        let before = first_position(front, word);
        assert forall|j: int| 0 <= j < first_position(q, word) implies #[trigger] q[j] != word by {
            if j < front.len() {
                assert(front[j] == q[j]);
            }
        }
        if before < front.len() {
            assert(front[before] == q[before]);
        }
        if q.contains(word) {
            let j = choose|j: int| 0 <= j < q.len() && q[j] == word;
            if j < front.len() {
                assert(front[j] == word);
                assert(front.contains(word));
            }
        }
        if first_position(q, word) < q.len() {
            assert(q[first_position(q, word)] == word);
        }
    }
}

/// One entry of the frequency table: a word, how often it was met and where
/// it was met first.
struct TermEntry {
    word: Vec<char>,
    count: usize,
    first: usize,
}

/// Entry `e` of the table says of its word what holds of it in `q`.
spec fn entry_counts(table: Seq<TermEntry>, q: Seq<Seq<char>>, e: int) -> bool {
    &&& table[e].first < q.len()
    &&& table[e].first == first_position(q, table[e].word@)
    &&& table[e].count == occurrences(q, table[e].word@)
    &&& table[e].count > 0
}

/// Some entry of the table is for `word`.
spec fn listed(table: Seq<TermEntry>, word: Seq<char>) -> bool {
    exists|e: int| 0 <= e < table.len() && (#[trigger] table[e]).word@ == word
}

/// The table is the frequency table of `q`: one entry for each different
/// word, in the order in which the words were first met.
spec fn tallies(table: Seq<TermEntry>, q: Seq<Seq<char>>) -> bool {
    &&& forall|e: int| 0 <= e < table.len() ==> #[trigger] entry_counts(table, q, e)
    &&& forall|j: int| 0 <= j < q.len() ==> listed(table, #[trigger] q[j])
    &&& forall|x: int, y: int|
        0 <= x < y < table.len() ==> (#[trigger] table[x]).first < (#[trigger] table[y]).first
}

/// Entry `x` comes before entry `y` in the order of the key terms.
spec fn entry_before(table: Seq<TermEntry>, x: int, y: int) -> bool {
    ||| table[x].count > table[y].count
    ||| table[x].count == table[y].count && table[x].first < table[y].first
}

/// Whether two words are the same.
fn same_chars(a: &Vec<char>, b: &Vec<char>) -> (same: bool)
    ensures
        same == (a@ == b@),
{
    if a.len() != b.len() {
        return false;
    }
    let n = a.len();
    let mut i: usize = 0;
    while i < n
        invariant
            n == a@.len(),
            n == b@.len(),
            i <= n,
            forall|k: int| 0 <= k < i ==> a@[k] == b@[k],
        decreases n - i,
    {
        if a[i] != b[i] {
            return false;
        }
        i += 1;
    }
    proof {
        assert(a@ =~= b@);
    }
    true
}

/// The stop words as characters.
fn stop_list() -> (list: Vec<Vec<char>>)
    ensures
        views(list@) == stop_words(),
{
    let entries = [
        "the",
        "a",
        "an",
        "and",
        "or",
        "but",
        "in",
        "on",
        "at",
        "to",
        "for",
        "of",
        "with",
        "by",
        "from",
        "is",
        "are",
        "was",
        "were",
    ];
    let mut list: Vec<Vec<char>> = Vec::new();
    let mut k: usize = 0;
    while k < 19
        invariant
            k <= 19,
            list@.len() == k,
            entries@.len() == 19,
            forall|j: int| 0 <= j < k ==> (#[trigger] list@[j])@ == entries@[j]@,
        decreases 19 - k,
    {
        list.push(chars_of(entries[k]));
        k += 1;
    }
    proof {
        assert(views(list@) =~= stop_words());
    }
    list
}

/// Whether `word` is among `list`.
fn is_listed(word: &Vec<char>, list: &Vec<Vec<char>>) -> (found: bool)
    ensures
        found == views(list@).contains(word@),
{
    let n = list.len();
    let mut k: usize = 0;
    while k < n
        invariant
            n == list@.len(),
            k <= n,
            forall|j: int| 0 <= j < k ==> views(list@)[j] != word@,
        decreases n - k,
    {
        proof {
            assert(views(list@)[k as int] == list@[k as int]@);
        }
        if same_chars(word, &list[k]) {
            return true;
        }
        k += 1;
    }
    false
}

/// The words of `tokens` that can be key terms.
fn keep_terms(tokens: Vec<Vec<char>>) -> (kept: Vec<Vec<char>>)
    ensures
        views(kept@) == views(tokens@).filter(term_test()),
{
    let stops = stop_list();
    let mut kept: Vec<Vec<char>> = Vec::new();
    let n = tokens.len();
    let ghost all = views(tokens@);
    let mut i: usize = 0;
    proof {
        assert(all.take(0) =~= Seq::empty());
        assert(views(kept@) =~= Seq::empty());
    }
    while i < n
        invariant
            n == tokens@.len(),
            i <= n,
            all == views(tokens@),
            views(stops@) == stop_words(),
            views(kept@) == all.take(i as int).filter(term_test()),
        decreases n - i,
    {
        let token = &tokens[i];
        proof {
            assert(all.take(i + 1) =~= all.take(i as int).push(token@));
            all.take(i as int).lemma_filter_push(token@, term_test());
        }
        if token.len() > 3 && !is_listed(token, &stops) {
            let word = token.clone();
            proof {
                assert(views(kept@.push(word)) =~= views(kept@).push(token@));
            }
            kept.push(word);
        }
        i += 1;
    }
    proof {
        assert(all.take(n as int) =~= all);
    }
    kept
}

/// Where the entry for `word` stands in the table, if there is one.
fn find_entry(table: &Vec<TermEntry>, word: &Vec<char>) -> (index: Option<usize>)
    ensures
        index is Some <==> listed(table@, word@),
        index matches Some(e) ==> e < table@.len() && table@[e as int].word@ == word@,
{
    let n = table.len();
    let mut e: usize = 0;
    while e < n
        invariant
            n == table@.len(),
            e <= n,
            forall|x: int| 0 <= x < e ==> (#[trigger] table@[x]).word@ != word@,
        decreases n - e,
    {
        if same_chars(&table[e].word, word) {
            return Some(e);
        }
        e += 1;
    }
    None
}

/// Counts entry `e` once more.
fn count_again(table: &mut Vec<TermEntry>, e: usize)
    requires
        e < old(table)@.len(),
        old(table)@[e as int].count < usize::MAX,
    ensures
        final(table)@.len() == old(table)@.len(),
        forall|x: int| 0 <= x < old(table)@.len() && x != e ==> final(table)@[x] == old(table)@[x],
        final(table)@[e as int].word == old(table)@[e as int].word,
        final(table)@[e as int].first == old(table)@[e as int].first,
        final(table)@[e as int].count == old(table)@[e as int].count + 1,
{
    table[e].count = table[e].count + 1;
}

/// The frequency table of `q`.
fn tally(q: &Vec<Vec<char>>) -> (table: Vec<TermEntry>)
    ensures
        tallies(table@, views(q@)),
{
    let mut table: Vec<TermEntry> = Vec::new();
    let n = q.len();
    let ghost all = views(q@);
    let mut i: usize = 0;
    proof {
        assert(all.take(0) =~= Seq::empty());
    }
    while i < n
        invariant
            n == q@.len(),
            i <= n,
            all == views(q@),
            tallies(table@, all.take(i as int)),
        decreases n - i,
    {
        let ghost seen = all.take(i as int);
        let ghost next = all.take(i + 1);
        let ghost before = table@;
        let word = &q[i];
        proof {
            assert(next.drop_last() =~= seen);
            assert(next.last() == word@);
            first_position_is_first(seen, word@);
            assert forall|e: int| 0 <= e < before.len() implies occurrences(
                next,
                (#[trigger] before[e]).word@,
            ) == occurrences(seen, before[e].word@) + if before[e].word@ == word@ {
                1nat
            } else {
                0nat
            } && first_position(next, before[e].word@) == first_position(seen, before[e].word@)
                && before[e].count <= i by {
                assert(entry_counts(before, seen, e));
                first_position_is_first(seen, before[e].word@);
            }
        }
        match find_entry(&table, word) {
            Some(e) => {
                proof {
                    assert(entry_counts(before, seen, e as int));
                }
                count_again(&mut table, e);
                proof {
                    assert forall|x: int| 0 <= x < table@.len() implies #[trigger] entry_counts(
                        table@,
                        next,
                        x,
                    ) by {
                        assert(entry_counts(before, seen, x));
                        if x != e {
                            assert(table@[x] == before[x]);
                            if before[x].word@ == word@ {
                                if x < e {
                                    assert(before[x].first < before[e as int].first);
                                } else {
                                    assert(before[e as int].first < before[x].first);
                                }
                            }
                        }
                    }
                    assert forall|j: int| 0 <= j < next.len() implies listed(
                        table@,
                        #[trigger] next[j],
                    ) by {
                        if j < i {
                            assert(next[j] == seen[j]);
                            assert(listed(before, seen[j]));
                            let x = choose|x: int|
                                0 <= x < before.len() && (#[trigger] before[x]).word@ == seen[j];
                            assert(table@[x].word@ == seen[j]);
                        } else {
                            assert(table@[e as int].word@ == next[j]);
                        }
                    }
                    assert forall|x: int, y: int| 0 <= x < y < table@.len() implies (
                    #[trigger] table@[x]).first < (#[trigger] table@[y]).first by {
                        assert(before[x].first < before[y].first);
                    }
                }
            },
            None => {
                let entry = TermEntry { word: word.clone(), count: 1, first: i };
                proof {
                    assert(entry.word@ == word@);
                    assert(!seen.contains(word@)) by {
                        if seen.contains(word@) {
                            let j = choose|j: int| 0 <= j < seen.len() && seen[j] == word@;
                            assert(listed(before, seen[j]));
                        }
                    }
                }
                table.push(entry);
                proof {
                    assert forall|x: int| 0 <= x < table@.len() implies #[trigger] entry_counts(
                        table@,
                        next,
                        x,
                    ) by {
                        if x < before.len() {
                            assert(table@[x] == before[x]);
                            assert(entry_counts(before, seen, x));
                            assert(!listed(before, word@));
                            assert(before[x].word@ != word@);
                        }
                    }
                    assert forall|j: int| 0 <= j < next.len() implies listed(
                        table@,
                        #[trigger] next[j],
                    ) by {
                        if j < i {
                            assert(next[j] == seen[j]);
                            assert(listed(before, seen[j]));
                            let x = choose|x: int|
                                0 <= x < before.len() && (#[trigger] before[x]).word@ == seen[j];
                            assert(table@[x].word@ == seen[j]);
                        } else {
                            assert(table@[before.len() as int].word@ == next[j]);
                        }
                    }
                    assert forall|x: int, y: int| 0 <= x < y < table@.len() implies (
                    #[trigger] table@[x]).first < (#[trigger] table@[y]).first by {
                        if y < before.len() {
                            assert(before[x].first < before[y].first);
                        } else {
                            assert(entry_counts(before, seen, x));
                        }
                    }
                }
            },
        }
        i += 1;
    }
    proof {
        assert(all.take(n as int) =~= all);
    }
    table
}

/// Whether entry `e` is among `picks`.
spec fn picked(picks: Seq<usize>, e: int) -> bool {
    exists|i: int| 0 <= i < picks.len() && #[trigger] picks[i] == e
}

/// `picks` names the first entries of the table in the order of the key
/// terms: at most `top_n`, in order, and an entry is left out only when the
/// picks are full, and then it comes after every pick.
spec fn picks_rank(table: Seq<TermEntry>, top_n: nat, picks: Seq<usize>) -> bool {
    &&& picks.len() <= top_n
    &&& forall|i: int| 0 <= i < picks.len() ==> (#[trigger] picks[i]) < table.len()
    &&& forall|i: int, j: int|
        0 <= i < j < picks.len() ==> entry_before(
            table,
            #[trigger] picks[i] as int,
            #[trigger] picks[j] as int,
        )
    &&& forall|e: int|
        0 <= e < table.len() && !#[trigger] picked(picks, e) ==> {
            &&& picks.len() == top_n
            &&& forall|i: int|
                0 <= i < picks.len() ==> entry_before(table, #[trigger] picks[i] as int, e)
        }
}

/// The entry that comes first among those not taken yet, if any is left.
fn best_left(table: &Vec<TermEntry>, taken: &Vec<bool>) -> (best: Option<usize>)
    requires
        taken@.len() == table@.len(),
        forall|x: int, y: int|
            0 <= x < y < table@.len() ==> (#[trigger] table@[x]).first < (
            #[trigger] table@[y]).first,
    ensures
        best is None ==> forall|e: int| 0 <= e < table@.len() ==> #[trigger] taken@[e],
        best matches Some(b) ==> {
            &&& b < table@.len()
            &&& !taken@[b as int]
            &&& forall|e: int|
                0 <= e < table@.len() && !#[trigger] taken@[e] && e != b ==> entry_before(
                    table@,
                    b as int,
                    e,
                )
        },
{
    let n = table.len();
    let mut best: Option<usize> = None;
    let mut e: usize = 0;
    while e < n
        invariant
            n == table@.len(),
            n == taken@.len(),
            e <= n,
            forall|x: int, y: int|
                0 <= x < y < table@.len() ==> (#[trigger] table@[x]).first < (
                #[trigger] table@[y]).first,
            best is None ==> forall|x: int| 0 <= x < e ==> #[trigger] taken@[x],
            best matches Some(b) ==> {
                &&& b < e
                &&& !taken@[b as int]
                &&& forall|x: int|
                    0 <= x < e && !#[trigger] taken@[x] && x != b ==> entry_before(
                        table@,
                        b as int,
                        x,
                    )
            },
        decreases n - e,
    {
        if !taken[e] {
            match best {
                None => {
                    best = Some(e);
                },
                Some(b) => {
                    proof {
                        assert(table@[b as int].first < table@[e as int].first);
                    }
                    if table[e].count > table[b].count {
                        proof {
                            assert forall|x: int|
                                0 <= x < e + 1 && !#[trigger] taken@[x] && x
                                    != e implies entry_before(
                                table@,
                                e as int,
                                x,
                            ) by {
                                if x != b {
                                    assert(entry_before(table@, b as int, x));
                                }
                            }
                        }
                        best = Some(e);
                    }
                },
            }
        }
        e += 1;
    }
    best
}

/// Picks the first `top_n` entries of the table in the order of the key
/// terms.
fn pick_top(table: &Vec<TermEntry>, top_n: usize) -> (picks: Vec<usize>)
    requires
        forall|x: int, y: int|
            0 <= x < y < table@.len() ==> (#[trigger] table@[x]).first < (
            #[trigger] table@[y]).first,
    ensures
        picks_rank(table@, top_n as nat, picks@),
{
    let n = table.len();
    let mut taken: Vec<bool> = Vec::new();
    let mut k: usize = 0;
    while k < n
        invariant
            k <= n,
            taken@.len() == k,
            forall|x: int| 0 <= x < k ==> !#[trigger] taken@[x],
        decreases n - k,
    {
        taken.push(false);
        k += 1;
    }
    let mut picks: Vec<usize> = Vec::new();
    let mut full = false;
    while picks.len() < top_n && !full
        invariant
            n == table@.len(),
            n == taken@.len(),
            picks@.len() <= top_n,
            forall|x: int, y: int|
                0 <= x < y < table@.len() ==> (#[trigger] table@[x]).first < (
                #[trigger] table@[y]).first,
            forall|i: int| 0 <= i < picks@.len() ==> (#[trigger] picks@[i]) < n,
            forall|e: int| 0 <= e < n ==> (#[trigger] taken@[e] <==> picked(picks@, e)),
            forall|i: int, j: int|
                0 <= i < j < picks@.len() ==> entry_before(
                    table@,
                    #[trigger] picks@[i] as int,
                    #[trigger] picks@[j] as int,
                ),
            forall|i: int, e: int|
                0 <= i < picks@.len() && 0 <= e < n && !#[trigger] taken@[e] ==> entry_before(
                    table@,
                    #[trigger] picks@[i] as int,
                    e,
                ),
            full ==> forall|e: int| 0 <= e < n ==> #[trigger] taken@[e],
        decreases top_n - picks@.len(), if full { 0int } else { 1int },
    {
        match best_left(table, &taken) {
            None => {
                full = true;
            },
            Some(b) => {
                let ghost picks_before = picks@;
                let ghost taken_before = taken@;
                taken.set(b, true);
                picks.push(b);
                proof {
                    assert(picks@[picks_before.len() as int] == b);
                    assert forall|e: int| 0 <= e < n implies (#[trigger] taken@[e] <==> picked(
                        picks@,
                        e,
                    )) by {
                        if e == b {
                            assert(picked(picks@, e));
                        } else {
                            assert(taken@[e] == taken_before[e]);
                            if picked(picks_before, e) {
                                let i = choose|i: int|
                                    0 <= i < picks_before.len() && #[trigger] picks_before[i] == e;
                                assert(picks@[i] == e);
                            }
                            if picked(picks@, e) {
                                let i = choose|i: int|
                                    0 <= i < picks@.len() && #[trigger] picks@[i] == e;
                                assert(picks_before[i] == e);
                            }
                        }
                    }
                    assert forall|i: int, j: int| 0 <= i < j < picks@.len() implies entry_before(
                        table@,
                        #[trigger] picks@[i] as int,
                        #[trigger] picks@[j] as int,
                    ) by {
                        if j == picks_before.len() {
                            assert(picks@[i] == picks_before[i]);
                            assert(!taken_before[b as int]);
                        } else {
                            assert(picks@[i] == picks_before[i]);
                            assert(picks@[j] == picks_before[j]);
                        }
                    }
                    assert forall|i: int, e: int|
                        0 <= i < picks@.len() && 0 <= e < n
                            && !#[trigger] taken@[e] implies entry_before(
                        table@,
                        #[trigger] picks@[i] as int,
                        e,
                    ) by {
                        assert(taken_before[e] == taken@[e]);
                        if i < picks_before.len() {
                            assert(picks@[i] == picks_before[i]);
                        }
                    }
                }
            },
        }
    }
    proof {
        assert forall|e: int| 0 <= e < table@.len() && !#[trigger] picked(picks@, e) implies {
            &&& picks@.len() == top_n
            &&& forall|i: int|
                0 <= i < picks@.len() ==> entry_before(table@, #[trigger] picks@[i] as int, e)
        } by {
            assert(!taken@[e]);
        }
    }
    picks
}

/// The key terms among words that are in lower case and sifted already: the
/// first `top_n` of them in the order of the key terms.
pub fn rank_terms(q: &Vec<Vec<char>>, top_n: usize) -> (ranking: Vec<String>)
    ensures
        is_ranking(views(q@), top_n as nat, texts(ranking@)),
{
    let table = tally(q);
    let picks = pick_top(&table, top_n);
    let ghost all = views(q@);
    let mut ranking: Vec<String> = Vec::new();
    let n = picks.len();
    let mut i: usize = 0;
    while i < n
        invariant
            n == picks@.len(),
            i <= n,
            ranking@.len() == i,
            picks_rank(table@, top_n as nat, picks@),
            forall|k: int|
                0 <= k < i ==> (#[trigger] ranking@[k])@ == table@[picks@[k] as int].word@,
        decreases n - i,
    {
        let word = string_of(&table[picks[i]].word);
        ranking.push(word);
        i += 1;
    }
    proof {
        let r = texts(ranking@);
        assert forall|k: int| 0 <= k < r.len() implies #[trigger] r[k] == table@[picks@[k]
            as int].word@ by {
            assert(r[k] == ranking@[k]@);
        }
        assert forall|k: int| 0 <= k < r.len() implies all.contains(#[trigger] r[k]) by {
            let e = picks@[k] as int;
            assert(entry_counts(table@, all, e));
            first_position_is_first(all, table@[e].word@);
        }
        assert forall|x: int, y: int| 0 <= x < y < r.len() implies ranks_before(
            all,
            #[trigger] r[x],
            #[trigger] r[y],
        ) by {
            assert(entry_counts(table@, all, picks@[x] as int));
            assert(entry_counts(table@, all, picks@[y] as int));
            assert(entry_before(table@, picks@[x] as int, picks@[y] as int));
        }
        assert forall|word: Seq<char>| #[trigger]
            all.contains(word) && !r.contains(word) implies {
            &&& r.len() == top_n
            &&& forall|k: int| 0 <= k < r.len() ==> ranks_before(all, #[trigger] r[k], word)
        } by {
            let j = choose|j: int| 0 <= j < all.len() && all[j] == word;
            assert(listed(table@, all[j]));
            let e = choose|e: int| 0 <= e < table@.len() && (#[trigger] table@[e]).word@ == word;
            assert(entry_counts(table@, all, e));
            if picked(picks@, e) {
                let k = choose|k: int| 0 <= k < picks@.len() && #[trigger] picks@[k] == e;
                assert(r[k] == word);
            }
            assert(!picked(picks@, e));
            assert forall|k: int| 0 <= k < r.len() implies ranks_before(
                all,
                #[trigger] r[k],
                word,
            ) by {
                assert(entry_counts(table@, all, picks@[k] as int));
                assert(entry_before(table@, picks@[k] as int, e));
            }
        }
    }
    ranking
}

/// The key terms of a text that is in lower case already.
pub fn key_terms_of_folded(folded: &str, top_n: usize) -> (ranking: Vec<String>)
    ensures
        is_ranking(terms(folded@), top_n as nat, texts(ranking@)),
{
    let chars = chars_of(folded);
    let tokens = split_whitespace(&chars);
    let kept = keep_terms(tokens);
    rank_terms(&kept, top_n)
}

/// The key terms of `text`: its `top_n` most frequent words, the most
/// frequent first. Case does not count, words of three characters or fewer and
/// stop words are passed over, and of two words that are equally frequent
/// the one that the text brings first comes first.
pub fn extract_key_terms(text: &str, top_n: usize) -> (ranking: Vec<String>)
    ensures
        is_ranking(terms(lowercase(text@)), top_n as nat, texts(ranking@)),
{
    let folded = to_lowercase(text);
    key_terms_of_folded(folded.as_str(), top_n)
}

/// No stop word and no word of three characters or fewer is among the key
/// terms of a text; there are no more key terms than were asked for; and
/// they are sorted by frequency, the most frequent first.
pub proof fn key_terms_are_sifted_and_sorted(folded: Seq<char>, top_n: nat, ranking: Seq<Seq<char>>)
    requires
        is_ranking(terms(folded), top_n, ranking),
    ensures
        ranking.len() <= top_n,
        forall|i: int|
            0 <= i < ranking.len() ==> !stop_words().contains(#[trigger] ranking[i])
                && ranking[i].len() > 3,
        forall|i: int, j: int|
            0 <= i < j < ranking.len() ==> occurrences(terms(folded), #[trigger] ranking[i])
                >= occurrences(terms(folded), #[trigger] ranking[j]),
{
    let q = terms(folded);
    assert forall|i: int| 0 <= i < ranking.len() implies !stop_words().contains(
        #[trigger] ranking[i],
    ) && ranking[i].len() > 3 by {
        assert(q.contains(ranking[i]));
        let j = choose|j: int| 0 <= j < q.len() && q[j] == ranking[i];
        words(folded).lemma_filter_pred(term_test(), j);
    }
    assert forall|i: int, j: int| 0 <= i < j < ranking.len() implies occurrences(
        q,
        #[trigger] ranking[i],
    ) >= occurrences(q, #[trigger] ranking[j]) by {
        assert(ranks_before(q, ranking[i], ranking[j]));
    }
}

/// Of two different words of a text exactly one comes before the other, and
/// no word comes before itself.
pub proof fn ranks_before_is_total(q: Seq<Seq<char>>, a: Seq<char>, b: Seq<char>)
    requires
        q.contains(a),
        q.contains(b),
    ensures
        a != b ==> (ranks_before(q, a, b) <==> !ranks_before(q, b, a)),
        a == b ==> !ranks_before(q, a, b),
{
    first_position_is_first(q, a);
    first_position_is_first(q, b);
}

/// There is one ranking only: what `is_ranking` says of the key terms leaves
/// no choice.
pub proof fn ranking_unique(
    q: Seq<Seq<char>>,
    top_n: nat,
    first: Seq<Seq<char>>,
    second: Seq<Seq<char>>,
)
    requires
        is_ranking(q, top_n, first),
        is_ranking(q, top_n, second),
    ensures
        first == second,
{
    rankings_agree(q, top_n, first, second, 0);
    ranking_is_not_shorter(q, top_n, first, second);
    ranking_is_not_shorter(q, top_n, second, first);
    assert(first =~= second);
}

/// Two rankings that agree below `from` agree as far as both go.
proof fn rankings_agree(
    q: Seq<Seq<char>>,
    top_n: nat,
    first: Seq<Seq<char>>,
    second: Seq<Seq<char>>,
    from: int,
)
    requires
        is_ranking(q, top_n, first),
        is_ranking(q, top_n, second),
        0 <= from,
        forall|k: int|
            0 <= k < from && k < first.len() && k < second.len() ==> first[k] == second[k],
    ensures
        forall|k: int| 0 <= k < first.len() && k < second.len() ==> first[k] == second[k],
    decreases first.len() - from,
{
    if from < first.len() && from < second.len() {
        let a = first[from];
        let b = second[from];
        assert(q.contains(a));
        assert(q.contains(b));
        ranks_before_is_total(q, a, b);
        if a != b {
            if ranks_before(q, a, b) {
                word_before_pick_is_picked(q, top_n, first, second, from);
            } else {
                assert forall|k: int|
                    0 <= k < from && k < second.len() && k < first.len() implies second[k]
                    == first[k] by {}
                word_before_pick_is_picked(q, top_n, second, first, from);
            }
        }
        rankings_agree(q, top_n, first, second, from + 1);
    }
}

/// Where two rankings agree below `at`, the entry of the one at `at` does not
/// come before that of the other.
proof fn word_before_pick_is_picked(
    q: Seq<Seq<char>>,
    top_n: nat,
    first: Seq<Seq<char>>,
    second: Seq<Seq<char>>,
    at: int,
)
    requires
        is_ranking(q, top_n, first),
        is_ranking(q, top_n, second),
        0 <= at < first.len(),
        at < second.len(),
        forall|k: int| 0 <= k < at ==> first[k] == second[k],
        first[at] != second[at],
    ensures
        !ranks_before(q, first[at], second[at]),
{
    let a = first[at];
    let b = second[at];
    assert(q.contains(a));
    assert(q.contains(b));
    ranks_before_is_total(q, a, b);
    if second.contains(a) {
        let j = choose|j: int| 0 <= j < second.len() && second[j] == a;
        if j < at {
            assert(first[j] == second[j]);
            assert(ranks_before(q, first[j], first[at]));
            ranks_before_is_total(q, a, a);
        } else {
            assert(ranks_before(q, second[at], second[j]));
        }
    } else {
        assert(ranks_before(q, second[at], a));
    }
}

/// A ranking that agrees with another as far as it goes is as long as the
/// other.
proof fn ranking_is_not_shorter(
    q: Seq<Seq<char>>,
    top_n: nat,
    one: Seq<Seq<char>>,
    other: Seq<Seq<char>>,
)
    requires
        is_ranking(q, top_n, one),
        is_ranking(q, top_n, other),
        forall|k: int| 0 <= k < one.len() && k < other.len() ==> one[k] == other[k],
    ensures
        one.len() >= other.len(),
{
    if one.len() < other.len() {
        let c = other[one.len() as int];
        assert(q.contains(c));
        if one.contains(c) {
            let j = choose|j: int| 0 <= j < one.len() && one[j] == c;
            assert(ranks_before(q, other[j], other[one.len() as int]));
            ranks_before_is_total(q, c, c);
        }
    }
}

} // verus!
