//! Query parameters as the source of truth for the query suffix of a URL.

use vstd::prelude::*;
use vstd::string::*;

verus! {

/// One query parameter: key, value and a note that is only displayed.
pub type QueryParam = (String, String, String);

/// A query parameter as three sequences of characters.
pub type ParamModel = (Seq<char>, Seq<char>, Seq<char>);

/// The parameters of a list, in order, each as sequences of characters.
pub open spec fn params_view(params: Seq<QueryParam>) -> Seq<ParamModel> {
    Seq::new(params.len(), |i: int| (params[i].0@, params[i].1@, params[i].2@))
}

/// Number of characters of `text` before the first `mark`, or its whole
/// length where it holds none.
pub open spec fn mark_index(text: Seq<char>, mark: char) -> int
    decreases text.len(),
{
    if text.len() == 0 || text[0] == mark {
        0
    } else {
        1 + mark_index(text.drop_first(), mark)
    }
}

/// Number of characters before the first `?` of `url`, or its whole length
/// where it holds none.
pub open spec fn base_len(url: Seq<char>) -> int {
    mark_index(url, '?')
}

/// The URL without its query string.
pub open spec fn base_of(url: Seq<char>) -> Seq<char> {
    url.subrange(0, base_len(url))
}

/// What one parameter contributes to the query string: the bare key where the
/// value is empty, else `key=value`. The note never appears.
pub open spec fn piece(p: ParamModel) -> Seq<char> {
    if p.1.len() == 0 {
        p.0
    } else {
        p.0 + seq!['='] + p.1
    }
}

/// The query suffix that a parameter list stands for: every parameter with a
/// non-empty key, in order, `?` before the first and `&` before each other.
pub open spec fn query_suffix(params: Seq<ParamModel>) -> Seq<char>
    decreases params.len(),
{
    if params.len() == 0 {
        Seq::empty()
    } else {
        let before = query_suffix(params.drop_last());
        let p = params.last();
        if p.0.len() == 0 {
            before
        } else if before.len() == 0 {
            seq!['?'] + piece(p)
        } else {
            before + seq!['&'] + piece(p)
        }
    }
}

/// The URL rebuilt from its base and the parameter list.
pub open spec fn synced_url(url: Seq<char>, params: Seq<ParamModel>) -> Seq<char> {
    base_of(url) + query_suffix(params)
}

/// `mark_index` stays within the text.
pub proof fn lemma_mark_index_bounds(text: Seq<char>, mark: char)
    ensures
        0 <= mark_index(text, mark) <= text.len(),
    decreases text.len(),
{
    if text.len() != 0 && text[0] != mark {
        lemma_mark_index_bounds(text.drop_first(), mark);
    }
}

/// A position with no mark before it, which is the end or holds the mark, is
/// the mark index.
pub proof fn lemma_mark_index_is(text: Seq<char>, mark: char, n: int)
    requires
        0 <= n <= text.len(),
        forall|j: int| 0 <= j < n ==> text[j] != mark,
        n < text.len() ==> text[n] == mark,
    ensures
        mark_index(text, mark) == n,
    decreases text.len(),
{
    if n > 0 {
        let rest = text.drop_first();
        assert forall|j: int| 0 <= j < n - 1 implies rest[j] != mark by {
            assert(rest[j] == text[j + 1]);
        }
        lemma_mark_index_is(rest, mark, n - 1);
    }
}

/// No mark stands before the mark index, and the mark stands at it unless it
/// is the end.
pub proof fn lemma_mark_index_holds(text: Seq<char>, mark: char)
    ensures
        0 <= mark_index(text, mark) <= text.len(),
        forall|j: int| 0 <= j < mark_index(text, mark) ==> text[j] != mark,
        mark_index(text, mark) < text.len() ==> text[mark_index(text, mark)] == mark,
    decreases text.len(),
{
    lemma_mark_index_bounds(text, mark);
    if text.len() != 0 && text[0] != mark {
        let rest = text.drop_first();
        lemma_mark_index_holds(rest, mark);
        assert forall|j: int| 0 <= j < mark_index(text, mark) implies text[j] != mark by {
            if j > 0 {
                assert(text[j] == rest[j - 1]);
            }
        }
        if mark_index(text, mark) < text.len() {
            assert(text[mark_index(text, mark)] == rest[mark_index(rest, mark)]);
        }
    }
}

/// A query suffix is empty or begins with `?`.
pub proof fn lemma_suffix_head(params: Seq<ParamModel>)
    ensures
        query_suffix(params).len() > 0 ==> query_suffix(params)[0] == '?',
    decreases params.len(),
{
    if params.len() != 0 {
        lemma_suffix_head(params.drop_last());
    }
}

/// The part of `url` before its first `?`, or all of it where there is none.
pub fn base_url(url: &str) -> (base: String)
    ensures
        base@ == base_of(url@),
{
    let n: usize = url.unicode_len();
    let mut i: usize = 0;
    while i < n && url.get_char(i) != '?'
        invariant
            n == url@.len(),
            i <= n,
            forall|j: int| 0 <= j < i ==> url@[j] != '?',
        decreases n - i,
    {
        i += 1;
    }
    proof {
        lemma_mark_index_is(url@, '?', i as int);
    }
    url.substring_char(0, i).to_owned()
}

/// Rebuilds the URL from the parameter list: the query string of `url` is
/// dropped and a new one is written from `params`.
pub fn sync(url: &str, params: &Vec<QueryParam>) -> (out: String)
    ensures
        out@ == synced_url(url@, params_view(params@)),
{
    let mut out: String = base_url(url);
    let mut is_first: bool = true;
    let mut i: usize = 0;
    let ghost all = params_view(params@);
    proof {
        assert(all.take(0) =~= Seq::<ParamModel>::empty());
    }
    while i < params.len()
        invariant
            i <= params.len(),
            all == params_view(params@),
            out@ == base_of(url@) + query_suffix(all.take(i as int)),
            is_first == (query_suffix(all.take(i as int)).len() == 0),
        decreases params.len() - i,
    {
        let p = &params[i];
        proof {
            assert(all.take(i + 1).drop_last() =~= all.take(i as int));
            assert(all.take(i + 1).last() == all[i as int]);
            reveal_strlit("?");
            reveal_strlit("&");
            reveal_strlit("=");
        }
        if !p.0.as_str().is_empty() {
            if is_first {
                out.append("?");
                is_first = false;
                assert("?"@ =~= seq!['?']);
            } else {
                out.append("&");
                assert("&"@ =~= seq!['&']);
            }
            out.append(p.0.as_str());
            if !p.1.as_str().is_empty() {
                out.append("=");
                out.append(p.1.as_str());
                assert("="@ =~= seq!['=']);
            }
            assert(out@ =~= base_of(url@) + query_suffix(all.take(i + 1)));
        }
        i += 1;
    }
    proof {
        assert(all.take(params.len() as int) =~= all);
    }
    out
}

/// The base of a rebuilt URL is the base it was built on.
pub proof fn lemma_base_of_rebuilt(url: Seq<char>, params: Seq<ParamModel>)
    ensures
        base_len(synced_url(url, params)) == base_of(url).len(),
        base_of(synced_url(url, params)) == base_of(url),
{
    let base = base_of(url);
    let suffix = query_suffix(params);
    let once = base + suffix;
    lemma_mark_index_holds(url, '?');
    lemma_suffix_head(params);
    assert forall|j: int| 0 <= j < base.len() implies once[j] != '?' by {
        assert(once[j] == url[j]);
    }
    if suffix.len() > 0 {
        assert(once[base.len() as int] == suffix[0]);
    }
    lemma_mark_index_is(once, '?', base.len() as int);
    assert(base_of(once) =~= base);
}

/// Rebuilding a URL that was already rebuilt from the same list changes
/// nothing.
pub proof fn sync_is_idempotent(url: Seq<char>, params: Seq<ParamModel>)
    ensures
        synced_url(synced_url(url, params), params) == synced_url(url, params),
{
    lemma_base_of_rebuilt(url, params);
}

/// A list without a non-empty key writes no query string: the rebuilt URL is
/// the base alone, and a URL that holds no `?` comes back unchanged.
pub proof fn sync_without_keys_is_the_base(url: Seq<char>, params: Seq<ParamModel>)
    requires
        forall|i: int| 0 <= i < params.len() ==> (#[trigger] params[i]).0.len() == 0,
    ensures
        query_suffix(params) == Seq::<char>::empty(),
        synced_url(url, params) == base_of(url),
        !url.contains('?') ==> synced_url(url, params) == url,
    decreases params.len(),
{
    if params.len() > 0 {
        let front = params.drop_last();
        assert forall|i: int| 0 <= i < front.len() implies (#[trigger] front[i]).0.len() == 0 by {
            assert(front[i] == params[i]);
        }
        sync_without_keys_is_the_base(url, front);
        assert(params[params.len() - 1].0.len() == 0);
    }
    assert(synced_url(url, params) =~= base_of(url));
    if !url.contains('?') {
        lemma_mark_index_holds(url, '?');
        if base_len(url) < url.len() {
            assert(url.contains(url[base_len(url)]));
        }
        assert(base_of(url) =~= url);
    }
}

} // verus!
