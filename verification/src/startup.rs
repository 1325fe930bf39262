//! The parameters of a PostgreSQL startup message, and the splitting of
//! their `options` value into command-line options.
use vstd::prelude::*;

use crate::text::is_ascii_space;
use crate::text::is_ascii_space_char;
use crate::text::str_equal;

verus! {

/// The map that a list of name/value pairs gives, a later pair for a name
/// replacing an earlier one.
pub open spec fn pairs_map(pairs: Seq<(Seq<char>, Seq<char>)>) -> Map<Seq<char>, Seq<char>>
    decreases pairs.len(),
{
    if pairs.len() == 0 {
        Map::empty()
    } else {
        pairs_map(pairs.drop_last()).insert(pairs.last().0, pairs.last().1)
    }
}

/// Whether the character at `i` of `s` is escaped: a backslash escapes the
/// character after it, unless that backslash is escaped itself.
pub open spec fn escaped_at(s: Seq<char>, i: int) -> bool
    decreases i,
{
    if i <= 0 {
        false
    } else {
        s[i - 1] == '\\' && !escaped_at(s, i - 1)
    }
}

/// The options are separated at each whitespace character that is not escaped.
pub open spec fn separates_at(s: Seq<char>, i: int) -> bool {
    is_ascii_space(s[i]) && !escaped_at(s, i)
}

/// `s[start..end]` as a one-element list, or nothing when it is empty.
pub open spec fn piece(s: Seq<char>, start: int, end: int) -> Seq<Seq<char>> {
    if start < end {
        seq![s.subrange(start, end)]
    } else {
        Seq::empty()
    }
}

/// The options of `s` that begin at or after `start`, where the scan has
/// reached `i` and no separator lies in `s[start..i]`.
pub open spec fn options_from(s: Seq<char>, start: int, i: int) -> Seq<Seq<char>>
    decreases s.len() - i,
{
    if i >= s.len() {
        piece(s, start, s.len() as int)
    } else if separates_at(s, i) {
        piece(s, start, i) + options_from(s, i + 1, i + 1)
    } else {
        options_from(s, start, i + 1)
    }
}

/// The command-line options of `s`, split as PostgreSQL splits them: at
/// whitespace that is not escaped, dropping empty pieces, and leaving every
/// escape sequence in place.
pub open spec fn raw_options(s: Seq<char>) -> Seq<Seq<char>> {
    options_from(s, 0, 0)
}

/// The text of each string of `v`.
pub open spec fn texts(v: Seq<String>) -> Seq<Seq<char>> {
    v.map_values(|t: String| t@)
}

/// The parameters of a startup message: names with their values.
pub struct StartupMessageParams {
    pairs: Vec<(String, String)>,
}

impl View for StartupMessageParams {
    type V = Map<Seq<char>, Seq<char>>;

    closed spec fn view(&self) -> Map<Seq<char>, Seq<char>> {
        pairs_map(self.pairs.deep_view())
    }
}

/// With no pair after index `i` naming `name`, the map of all pairs and that
/// of the first `i` agree on `name`.
proof fn lemma_pairs_map_prefix(pairs: Seq<(Seq<char>, Seq<char>)>, i: int, name: Seq<char>)
    requires
        0 <= i <= pairs.len(),
        forall|j: int| i <= j < pairs.len() ==> pairs[j].0 != name,
    ensures
        pairs_map(pairs).contains_key(name) == pairs_map(pairs.take(i)).contains_key(name),
        pairs_map(pairs).contains_key(name) ==> pairs_map(pairs)[name] == pairs_map(
            pairs.take(i),
        )[name],
    decreases pairs.len(),
{
    if pairs.len() == i {
        assert(pairs.take(i) =~= pairs);
    } else {
        lemma_pairs_map_prefix(pairs.drop_last(), i, name);
        assert(pairs.drop_last().take(i) =~= pairs.take(i));
    }
}

/// A name is in the map of a list of pairs exactly when some pair names it,
/// and its value there is that of the last pair naming it.
pub proof fn law_pairs_map_last_wins(pairs: Seq<(Seq<char>, Seq<char>)>, name: Seq<char>, j: int)
    ensures
        pairs_map(pairs).contains_key(name) <==> exists|k: int|
            0 <= k < pairs.len() && (#[trigger] pairs[k]).0 == name,
        0 <= j < pairs.len() && pairs[j].0 == name && (forall|k: int|
            j < k < pairs.len() ==> (#[trigger] pairs[k]).0 != name) ==> pairs_map(pairs)[name]
            == pairs[j].1,
    decreases pairs.len(),
{
    if pairs.len() > 0 {
        let init = pairs.drop_last();
        law_pairs_map_last_wins(init, name, j);
        if pairs_map(init).contains_key(name) {
            let k = choose|k: int| 0 <= k < init.len() && (#[trigger] init[k]).0 == name;
            assert(pairs[k] == init[k]);
        }
        if exists|k: int| 0 <= k < pairs.len() && (#[trigger] pairs[k]).0 == name {
            let k = choose|k: int| 0 <= k < pairs.len() && (#[trigger] pairs[k]).0 == name;
            if k < init.len() {
                assert(init[k] == pairs[k]);
            }
        }
        if 0 <= j < init.len() && pairs[j].0 == name && (forall|k: int|
            j < k < pairs.len() ==> (#[trigger] pairs[k]).0 != name) {
            assert(init[j] == pairs[j]);
            assert forall|k: int| j < k < init.len() implies (#[trigger] init[k]).0 != name by {
                assert(init[k] == pairs[k]);
            }
        }
    }
}

impl StartupMessageParams {
    /// Builds the parameters from name/value pairs; a later pair for a name
    /// replaces an earlier one.
    pub fn new<const N: usize>(pairs: [(&str, &str); N]) -> (r: Self)
        ensures
            r@ == pairs_map(pairs@.map_values(|p: (&str, &str)| (p.0@, p.1@))),
    {
        let ghost src = pairs@.map_values(|p: (&str, &str)| (p.0@, p.1@));
        let mut v: Vec<(String, String)> = Vec::new();
        let mut i: usize = 0;
        while i < N
            invariant
                i <= N,
                N == pairs@.len(),
                src == pairs@.map_values(|p: (&str, &str)| (p.0@, p.1@)),
                v.deep_view() =~= src.take(i as int),
            decreases N - i,
        {
            let (k, val) = pairs[i];
            let ghost before = v.deep_view();
            v.push((k.to_owned(), val.to_owned()));
            proof {
                assert(pairs@[i as int] == (k, val));
                assert(src[i as int] == (k@, val@));
                assert(v.deep_view() =~= before.push((k@, val@)));
                assert(src.take(i + 1) =~= src.take(i as int).push(src[i as int]));
            }
            i = i + 1;
        }
        assert(src.take(N as int) =~= src);
        StartupMessageParams { pairs: v }
    }

    /// The value of the parameter `name`, if it is present.
    pub fn get(&self, name: &str) -> (r: Option<&str>)
        ensures
            r is Some <==> self@.contains_key(name@),
            r matches Some(value) ==> value@ == self@[name@],
    {
        let ghost ps = self.pairs.deep_view();
        let mut i: usize = self.pairs.len();
        while i > 0
            invariant
                i <= self.pairs.len(),
                ps == self.pairs.deep_view(),
                forall|j: int| i <= j < ps.len() ==> ps[j].0 != name@,
            decreases i,
        {
            let pair = &self.pairs[i - 1];
            if str_equal(pair.0.as_str(), name) {
                proof {
                    lemma_pairs_map_prefix(ps, i as int, name@);
                    assert(ps.take(i as int).drop_last() =~= ps.take(i - 1));
                }
                return Some(pair.1.as_str());
            }
            i = i - 1;
        }
        proof {
            lemma_pairs_map_prefix(ps, 0, name@);
        }
        None
    }
}

/// Splits `input` into command-line options as PostgreSQL does: at each
/// whitespace character that is not escaped by a backslash, dropping empty
/// pieces; escape sequences stay as they are.
pub fn parse_options_raw(input: &str) -> (r: Vec<String>)
    ensures
        texts(r@) == raw_options(input@),
{
    let n = input.unicode_len();
    let mut out: Vec<String> = Vec::new();
    let mut start: usize = 0;
    let mut escaped = false;
    let mut i: usize = 0;
    while i < n
        invariant
            n == input@.len(),
            start <= i <= n,
            escaped == escaped_at(input@, i as int),
            texts(out@) + options_from(input@, start as int, i as int) == raw_options(input@),
        decreases n - i,
    {
        let c = input.get_char(i);
        let ghost before = texts(out@);
        if is_ascii_space_char(c) && !escaped {
            if start < i {
                let word = input.substring_char(start, i).to_owned();
                out.push(word);
                assert(texts(out@) =~= before.push(word@));
            }
            assert(texts(out@) =~= before + piece(input@, start as int, i as int));
            start = i + 1;
        }
        escaped = c == '\\' && !escaped;
        i = i + 1;
    }
    let ghost before = texts(out@);
    if start < n {
        let word = input.substring_char(start, n).to_owned();
        out.push(word);
        assert(texts(out@) =~= before.push(word@));
    }
    assert(texts(out@) =~= before + piece(input@, start as int, n as int));
    out
}

impl StartupMessageParams {
    /// The command-line options of the `options` parameter, split as by
    /// [`parse_options_raw`]; `None` when there is no such parameter.
    pub fn options_raw(&self) -> (r: Option<Vec<String>>)
        ensures
            r is Some <==> self@.contains_key("options"@),
            r matches Some(v) ==> texts(v@) == raw_options(self@["options"@]),
    {
        match self.get("options") {
            Some(value) => Some(parse_options_raw(value)),
            None => None,
        }
    }
}

} // verus!
