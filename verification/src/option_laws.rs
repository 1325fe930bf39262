//! What holds of the splitting of startup options and of the options that
//! the proxy forwards.
use vstd::prelude::*;

use crate::compute::forwarded_options;
use crate::compute::keeps_option;
use crate::compute::kept_options;
use crate::startup::escaped_at;
use crate::startup::options_from;
use crate::startup::piece;
use crate::startup::raw_options;
use crate::startup::separates_at;
use crate::text::has_prefix;
use crate::text::is_ascii_space;
use crate::text::join_with;

verus! {

/// A single option: not empty, and with no separating whitespace in it.
pub open spec fn is_word(w: Seq<char>) -> bool {
    &&& w.len() > 0
    &&& forall|k: int| 0 <= k < w.len() ==> !separates_at(w, k)
}

/// A list of options as splitting yields them: each one a word, and each but
/// the last ending outside an escape, so that a space after it separates.
pub open spec fn is_word_list(ws: Seq<Seq<char>>) -> bool {
    &&& forall|i: int| 0 <= i < ws.len() ==> is_word(#[trigger] ws[i])
    &&& forall|i: int| 0 <= i < ws.len() - 1 ==> !escaped_at(#[trigger] ws[i], ws[i].len() as int)
}

/// The escape state inside `s[start..end]` is that of `s`, when `s` is not
/// escaping at `start`.
proof fn lemma_escape_local(s: Seq<char>, start: int, end: int, k: int)
    requires
        0 <= start <= end <= s.len(),
        0 <= k <= end - start,
        !escaped_at(s, start),
    ensures
        escaped_at(s.subrange(start, end), k) == escaped_at(s, start + k),
    decreases k,
{
    if k > 0 {
        lemma_escape_local(s, start, end, k - 1);
    }
}

/// Each option that splitting yields from position `i` on is a word, and
/// each but the last ends outside an escape.
proof fn lemma_options_from_words(s: Seq<char>, start: int, i: int)
    requires
        0 <= start <= i <= s.len(),
        !escaped_at(s, start),
        forall|k: int| start <= k < i ==> !separates_at(s, k),
    ensures
        is_word_list(options_from(s, start, i)),
    decreases s.len() - i,
{
    if i >= s.len() {
        if start < s.len() {
            let w = s.subrange(start, s.len() as int);
            assert forall|k: int| 0 <= k < w.len() implies !separates_at(w, k) by {
                lemma_escape_local(s, start, s.len() as int, k);
                assert(!separates_at(s, start + k));
                assert(w[k] == s[start + k]);
            }
        }
    } else if separates_at(s, i) {
        assert(!escaped_at(s, i + 1));
        lemma_options_from_words(s, i + 1, i + 1);
        let rest = options_from(s, i + 1, i + 1);
        if start < i {
            let w = s.subrange(start, i);
            assert forall|k: int| 0 <= k < w.len() implies !separates_at(w, k) by {
                lemma_escape_local(s, start, i, k);
                assert(!separates_at(s, start + k));
                assert(w[k] == s[start + k]);
            }
            lemma_escape_local(s, start, i, i - start);
            let all = seq![w] + rest;
            assert forall|j: int| 0 <= j < all.len() implies is_word(#[trigger] all[j]) by {
                if j > 0 {
                    assert(all[j] == rest[j - 1]);
                }
            }
            assert forall|j: int| 0 <= j < all.len() - 1 implies !escaped_at(
                #[trigger] all[j],
                all[j].len() as int,
            ) by {
                if j > 0 {
                    assert(all[j] == rest[j - 1]);
                }
            }
        } else {
            assert(piece(s, start, i) + rest =~= rest);
        }
    } else {
        lemma_options_from_words(s, start, i + 1);
    }
}

/// Splitting yields a word list.
pub proof fn lemma_raw_options_words(s: Seq<char>)
    ensures
        is_word_list(raw_options(s)),
{
    lemma_options_from_words(s, 0, 0);
}

/// Dropping options keeps a word list a word list.
proof fn lemma_kept_words(ws: Seq<Seq<char>>)
    requires
        is_word_list(ws),
    ensures
        is_word_list(kept_options(ws)),
        forall|i: int|
            0 <= i < kept_options(ws).len() ==> keeps_option(#[trigger] kept_options(ws)[i]),
    decreases ws.len(),
{
    reveal_with_fuel(Seq::<_>::filter, 1);
    if ws.len() > 0 {
        let init = ws.drop_last();
        assert forall|i: int| 0 <= i < init.len() implies is_word(#[trigger] init[i]) by {
            assert(init[i] == ws[i]);
        }
        assert forall|i: int| 0 <= i < init.len() - 1 implies !escaped_at(
            #[trigger] init[i],
            init[i].len() as int,
        ) by {
            assert(init[i] == ws[i]);
        }
        lemma_kept_words(init);
        let k = kept_options(init);
        assert(kept_options(ws) == if keeps_option(ws.last()) {
            k.push(ws.last())
        } else {
            k
        });
        if keeps_option(ws.last()) {
            // every option kept from `init` stood before the last one of `ws`
            lemma_kept_from(init);
            let all = k.push(ws.last());
            assert forall|i: int| 0 <= i < all.len() - 1 implies !escaped_at(
                #[trigger] all[i],
                all[i].len() as int,
            ) by {
                let j = choose|j: int| 0 <= j < init.len() && init[j] == k[i];
                assert(ws[j] == init[j]);
            }
            assert forall|i: int| 0 <= i < all.len() implies is_word(#[trigger] all[i]) by {
                if i < k.len() {
                    assert(all[i] == k[i]);
                }
            }
        }
    }
}

/// Each option kept from a list is one of its options.
proof fn lemma_kept_from(ws: Seq<Seq<char>>)
    ensures
        forall|i: int|
            0 <= i < kept_options(ws).len() ==> exists|j: int|
                0 <= j < ws.len() && ws[j] == #[trigger] kept_options(ws)[i],
    decreases ws.len(),
{
    reveal_with_fuel(Seq::<_>::filter, 1);
    if ws.len() > 0 {
        let init = ws.drop_last();
        lemma_kept_from(init);
        let k = kept_options(init);
        assert forall|i: int| 0 <= i < kept_options(ws).len() implies exists|j: int|
            0 <= j < ws.len() && ws[j] == #[trigger] kept_options(ws)[i] by {
            if i < k.len() {
                let j = choose|j: int| 0 <= j < init.len() && init[j] == k[i];
                assert(ws[j] == init[j]);
                assert(kept_options(ws)[i] == k[i]);
            } else {
                assert(ws[ws.len() - 1] == kept_options(ws)[i]);
            }
        }
    }
}

/// The escape state inside a prefix does not depend on what follows it.
proof fn lemma_escape_prefix(a: Seq<char>, x: Seq<char>, k: int)
    requires
        0 <= k <= a.len(),
    ensures
        escaped_at(a + x, k) == escaped_at(a, k),
    decreases k,
{
    if k > 0 {
        lemma_escape_prefix(a, x, k - 1);
        assert((a + x)[k - 1] == a[k - 1]);
    }
}

/// After a space, the escape state starts afresh.
proof fn lemma_escape_after_space(a: Seq<char>, b: Seq<char>, k: int)
    requires
        0 <= k <= b.len(),
    ensures
        escaped_at(a + " "@ + b, a.len() + 1 + k) == escaped_at(b, k),
    decreases k,
{
    reveal_strlit(" ");
    let s = a + " "@ + b;
    if k > 0 {
        lemma_escape_after_space(a, b, k - 1);
        assert(s[a.len() + 1 + k - 1] == b[k - 1]);
    } else {
        assert(s[a.len() as int] == ' ');
    }
}

/// Splitting `a`, a space and `b` up to the space splits `a`.
proof fn lemma_options_before_space(a: Seq<char>, b: Seq<char>, start: int, i: int)
    requires
        0 <= start <= i <= a.len(),
        !escaped_at(a, a.len() as int),
    ensures
        options_from(a + " "@ + b, start, i) == options_from(a, start, i) + options_from(
            a + " "@ + b,
            a.len() + 1int,
            a.len() + 1int,
        ),
    decreases a.len() - i,
{
    reveal_strlit(" ");
    let s = a + " "@ + b;
    let rest = options_from(s, a.len() + 1int, a.len() + 1int);
    lemma_escape_prefix(a, " "@ + b, i);
    assert(s =~= a + (" "@ + b));
    if i == a.len() {
        assert(s[i] == ' ');
        assert(separates_at(s, i));
        assert(s.subrange(start, i) =~= a.subrange(start, i));
        assert(piece(s, start, i) == piece(a, start, i));
    } else {
        assert(s[i] == a[i]);
        assert(separates_at(s, i) == separates_at(a, i));
        if separates_at(a, i) {
            lemma_options_before_space(a, b, i + 1, i + 1);
            assert(s.subrange(start, i) =~= a.subrange(start, i));
            assert(piece(s, start, i) == piece(a, start, i));
            assert(piece(a, start, i) + options_from(a, i + 1, i + 1) + rest =~= piece(
                a,
                start,
                i,
            ) + (options_from(a, i + 1, i + 1) + rest));
        } else {
            lemma_options_before_space(a, b, start, i + 1);
        }
    }
}

/// Splitting `a`, a space and `b` after the space splits `b`.
proof fn lemma_options_after_space(a: Seq<char>, b: Seq<char>, start: int, i: int)
    requires
        0 <= start <= i <= b.len(),
    ensures
        options_from(a + " "@ + b, a.len() + 1 + start, a.len() + 1 + i) == options_from(
            b,
            start,
            i,
        ),
    decreases b.len() - i,
{
    reveal_strlit(" ");
    let s = a + " "@ + b;
    let off: int = a.len() + 1int;
    assert(s.len() == off + b.len());
    if i == b.len() {
        assert(s.subrange(off + start, s.len() as int) =~= b.subrange(start, b.len() as int));
    } else {
        lemma_escape_after_space(a, b, i);
        assert(s[off + i] == b[i]);
        assert(separates_at(s, off + i) == separates_at(b, i));
        if separates_at(b, i) {
            lemma_options_after_space(a, b, i + 1, i + 1);
            assert(s.subrange(off + start, off + i) =~= b.subrange(start, i));
        } else {
            lemma_options_after_space(a, b, start, i + 1);
        }
    }
}

/// Splitting `a`, a space and `b` gives the options of `a`, then those of
/// `b`, when `a` does not end in an escape.
pub proof fn lemma_options_of_concat(a: Seq<char>, b: Seq<char>)
    requires
        !escaped_at(a, a.len() as int),
    ensures
        raw_options(a + " "@ + b) == raw_options(a) + raw_options(b),
{
    lemma_options_before_space(a, b, 0, 0);
    lemma_options_after_space(a, b, 0, 0);
}

/// A word splits into itself.
proof fn lemma_word_options(w: Seq<char>, i: int)
    requires
        is_word(w),
        0 <= i <= w.len(),
    ensures
        options_from(w, 0, i) == seq![w],
    decreases w.len() - i,
{
    if i == w.len() {
        assert(w.subrange(0, w.len() as int) =~= w);
    } else {
        lemma_word_options(w, i + 1);
    }
}

/// The escape state at the end of joined words is that at the end of the
/// last word.
proof fn lemma_join_end_escape(ws: Seq<Seq<char>>)
    requires
        ws.len() > 0,
    ensures
        escaped_at(join_with(ws, " "@), join_with(ws, " "@).len() as int) == escaped_at(
            ws.last(),
            ws.last().len() as int,
        ),
{
    reveal_strlit(" ");
    if ws.len() > 1 {
        let init = join_with(ws.drop_last(), " "@);
        assert(join_with(ws, " "@) == init + " "@ + ws.last());
        lemma_escape_after_space(init, ws.last(), ws.last().len() as int);
    }
}

/// Splitting words joined by spaces gives back the words.
pub proof fn lemma_split_joined_words(ws: Seq<Seq<char>>)
    requires
        is_word_list(ws),
    ensures
        raw_options(join_with(ws, " "@)) == ws,
    decreases ws.len(),
{
    if ws.len() == 0 {
        assert(raw_options(Seq::empty()) =~= Seq::<Seq<char>>::empty());
    } else if ws.len() == 1 {
        lemma_word_options(ws[0], 0);
        assert(ws =~= seq![ws[0]]);
    } else {
        let init = ws.drop_last();
        assert forall|i: int| 0 <= i < init.len() implies is_word(#[trigger] init[i]) by {
            assert(init[i] == ws[i]);
        }
        assert forall|i: int| 0 <= i < init.len() - 1 implies !escaped_at(
            #[trigger] init[i],
            init[i].len() as int,
        ) by {
            assert(init[i] == ws[i]);
        }
        lemma_split_joined_words(init);
        lemma_join_end_escape(init);
        assert(init.last() == ws[ws.len() - 2]);
        lemma_options_of_concat(join_with(init, " "@), ws.last());
        lemma_word_options(ws.last(), 0);
        assert(init + seq![ws.last()] =~= ws);
    }
}

/// Dropping nothing from a list whose options are all kept.
proof fn lemma_kept_all(ws: Seq<Seq<char>>)
    requires
        forall|i: int| 0 <= i < ws.len() ==> keeps_option(#[trigger] ws[i]),
    ensures
        kept_options(ws) == ws,
    decreases ws.len(),
{
    reveal_with_fuel(Seq::<_>::filter, 1);
    if ws.len() > 0 {
        let init = ws.drop_last();
        assert forall|i: int| 0 <= i < init.len() implies keeps_option(#[trigger] init[i]) by {
            assert(init[i] == ws[i]);
        }
        lemma_kept_all(init);
        assert(keeps_option(ws[ws.len() - 1]));
        assert(init.push(ws.last()) =~= ws);
    }
}

/// Nothing is kept exactly when no option is kept.
proof fn lemma_kept_none(ws: Seq<Seq<char>>)
    ensures
        (kept_options(ws).len() == 0) <==> (forall|i: int|
            0 <= i < ws.len() ==> !keeps_option(#[trigger] ws[i])),
    decreases ws.len(),
{
    reveal_with_fuel(Seq::<_>::filter, 1);
    if ws.len() > 0 {
        let init = ws.drop_last();
        lemma_kept_none(init);
        if kept_options(ws).len() == 0 {
            assert forall|i: int| 0 <= i < ws.len() implies !keeps_option(#[trigger] ws[i]) by {
                if i < init.len() {
                    assert(init[i] == ws[i]);
                }
            }
        } else {
            if forall|i: int| 0 <= i < ws.len() ==> !keeps_option(#[trigger] ws[i]) {
                assert forall|i: int| 0 <= i < init.len() implies !keeps_option(
                    #[trigger] init[i],
                ) by {
                    assert(init[i] == ws[i]);
                }
                assert(!keeps_option(ws[ws.len() - 1]));
            }
        }
    }
}

/// Joined words are empty exactly when there are none.
proof fn lemma_join_empty(ws: Seq<Seq<char>>)
    requires
        forall|i: int| 0 <= i < ws.len() ==> is_word(#[trigger] ws[i]),
    ensures
        (join_with(ws, " "@).len() == 0) <==> (ws.len() == 0),
{
    if ws.len() == 1 {
        assert(is_word(ws[0]));
    } else if ws.len() > 1 {
        assert(is_word(ws[ws.len() - 1]));
    }
}

/// The options that the proxy forwards split back into exactly the options
/// of the startup message that it keeps: none is split, merged or changed on
/// the way, and none of them names a project.
pub proof fn law_forwarded_options_split_back(params: Map<Seq<char>, Seq<char>>)
    requires
        forwarded_options(params) is Some,
    ensures
        raw_options(forwarded_options(params)->0) == kept_options(raw_options(params["options"@])),
        forall|i: int|
            0 <= i < raw_options(forwarded_options(params)->0).len() ==> keeps_option(
                #[trigger] raw_options(forwarded_options(params)->0)[i],
            ),
{
    let raw = raw_options(params["options"@]);
    lemma_raw_options_words(params["options"@]);
    lemma_kept_words(raw);
    lemma_split_joined_words(kept_options(raw));
}

/// Forwarding is stable: a startup message whose options are those that the
/// proxy forwarded has the same options forwarded again.
pub proof fn law_forwarded_options_stable(
    params: Map<Seq<char>, Seq<char>>,
    again: Map<Seq<char>, Seq<char>>,
)
    requires
        forwarded_options(params) is Some,
        again.contains_key("options"@),
        again["options"@] == forwarded_options(params)->0,
    ensures
        forwarded_options(again) == forwarded_options(params),
{
    law_forwarded_options_split_back(params);
    let kept = kept_options(raw_options(params["options"@]));
    lemma_kept_all(kept);
}

/// No options are forwarded exactly when the startup message has no
/// `options` parameter, or each of its options names a project.
pub proof fn law_forwarded_options_absent(params: Map<Seq<char>, Seq<char>>)
    ensures
        forwarded_options(params) is None <==> (!params.contains_key("options"@) || forall|i: int|
            0 <= i < raw_options(params["options"@]).len() ==> !keeps_option(
                #[trigger] raw_options(params["options"@])[i],
            )),
{
    if params.contains_key("options"@) {
        let raw = raw_options(params["options"@]);
        lemma_raw_options_words(params["options"@]);
        lemma_kept_words(raw);
        lemma_kept_none(raw);
        lemma_join_empty(kept_options(raw));
    }
}

/// Exactly the options that start with "project=" are dropped: nothing is
/// forwarded when there is no `options` parameter or each of its options
/// starts with "project="; otherwise the forwarded options split into the
/// options of the message that do not start with "project=", in order.
pub proof fn law_forwarded_drops_only_project(params: Map<Seq<char>, Seq<char>>)
    ensures
        forwarded_options(params) is None <==> (!params.contains_key("options"@) || forall|i: int|
            0 <= i < raw_options(params["options"@]).len() ==> has_prefix(
                #[trigger] raw_options(params["options"@])[i],
                "project="@,
            )),
        forwarded_options(params) matches Some(o) ==> raw_options(o) == raw_options(
            params["options"@],
        ).filter(|t: Seq<char>| !has_prefix(t, "project="@)),
{
    law_forwarded_options_absent(params);
    assert((|t: Seq<char>| keeps_option(t)) =~= (|t: Seq<char>| !has_prefix(t, "project="@)));
    if forwarded_options(params) is Some {
        law_forwarded_options_split_back(params);
    }
}

} // verus!
