//! Reading a query string back into parameters, and what survives the way
//! from a parameter list to a URL and back.

use crate::params::{
    base_len, base_of, lemma_base_of_rebuilt, lemma_mark_index_holds, lemma_mark_index_is,
    lemma_suffix_head, mark_index, params_view, piece, query_suffix, synced_url, ParamModel,
    QueryParam,
};
use vstd::prelude::*;
use vstd::string::*;

verus! {

/// The pieces of a query string: what stands between its `&` marks.
pub open spec fn split_pieces(query: Seq<char>) -> Seq<Seq<char>>
    decreases query.len(),
{
    if query.len() == 0 {
        seq![Seq::empty()]
    } else {
        let before = split_pieces(query.drop_last());
        if query.last() == '&' {
            before.push(Seq::empty())
        } else {
            before.update(before.len() - 1, before.last().push(query.last()))
        }
    }
}

/// The parameter that a piece reads as: key and value part at the first `=`;
/// a piece without one is a bare key. The note is empty.
pub open spec fn parse_piece(text: Seq<char>) -> ParamModel {
    let n = mark_index(text, '=');
    if n < text.len() {
        (text.subrange(0, n), text.subrange(n + 1, text.len() as int), Seq::empty())
    } else {
        (text, Seq::empty(), Seq::empty())
    }
}

/// The parameters that pieces read as.
pub open spec fn parse_pieces(pieces: Seq<Seq<char>>) -> Seq<ParamModel> {
    Seq::new(pieces.len(), |i: int| parse_piece(pieces[i]))
}

/// The parameter list that the query string of a URL reads as.
pub open spec fn parse_query(url: Seq<char>) -> Seq<ParamModel> {
    let n = base_len(url);
    if n < url.len() {
        parse_pieces(split_pieces(url.subrange(n + 1, url.len() as int)))
    } else {
        Seq::empty()
    }
}

/// Reads one piece of a query string as a parameter.
pub fn read_piece(text: &str) -> (param: QueryParam)
    ensures
        (param.0@, param.1@, param.2@) == parse_piece(text@),
{
    let n: usize = text.unicode_len();
    let mut i: usize = 0;
    while i < n && text.get_char(i) != '='
        invariant
            n == text@.len(),
            i <= n,
            forall|j: int| 0 <= j < i ==> text@[j] != '=',
        decreases n - i,
    {
        i += 1;
    }
    proof {
        lemma_mark_index_is(text@, '=', i as int);
    }
    if i < n {
        (
            text.substring_char(0, i).to_owned(),
            text.substring_char(i + 1, n).to_owned(),
            String::new(),
        )
    } else {
        assert(text@.subrange(0, n as int) =~= text@);
        (text.to_owned(), String::new(), String::new())
    }
}

/// Reads the query string of a URL as a parameter list: what follows the
/// first `?`, piece by piece. A URL without `?` reads as the empty list.
pub fn read_query(url: &str) -> (params: Vec<QueryParam>)
    ensures
        params_view(params@) == parse_query(url@),
{
    let n: usize = url.unicode_len();
    let mut mark: usize = 0;
    while mark < n && url.get_char(mark) != '?'
        invariant
            n == url@.len(),
            mark <= n,
            forall|j: int| 0 <= j < mark ==> url@[j] != '?',
        decreases n - mark,
    {
        mark += 1;
    }
    proof {
        lemma_mark_index_is(url@, '?', mark as int);
    }
    let mut params: Vec<QueryParam> = Vec::new();
    if mark == n {
        assert(params_view(params@) =~= Seq::empty());
        return params;
    }
    let ghost query = url@.subrange(mark + 1, n as int);
    let ghost done: Seq<Seq<char>> = Seq::empty();
    let mut start: usize = mark + 1;
    let mut i: usize = mark + 1;
    proof {
        assert(query.take(0) =~= Seq::empty());
        assert(url@.subrange(start as int, i as int) =~= Seq::empty());
        assert(split_pieces(query.take(0)) =~= done.push(url@.subrange(start as int, i as int)));
        assert(params_view(params@) =~= parse_pieces(done));
    }
    while i < n
        invariant
            n == url@.len(),
            mark < start <= i <= n,
            query == url@.subrange(mark + 1, n as int),
            split_pieces(query.take(i - mark - 1)) == done.push(
                url@.subrange(start as int, i as int),
            ),
            params_view(params@) == parse_pieces(done),
        decreases n - i,
    {
        let ghost seen = query.take(i - mark - 1);
        let ghost next = query.take(i - mark);
        proof {
            assert(next.drop_last() =~= seen);
            assert(next.last() == url@[i as int]);
        }
        if url.get_char(i) == '&' {
            let param = read_piece(url.substring_char(start, i));
            let ghost text = url@.subrange(start as int, i as int);
            let ghost before = params_view(params@);
            params.push(param);
            proof {
                assert(params_view(params@) =~= before.push(parse_piece(text)));
                assert(parse_pieces(done.push(text)) =~= parse_pieces(done).push(
                    parse_piece(text),
                ));
                done = done.push(text);
                assert(url@.subrange(i + 1, i + 1) =~= Seq::empty());
            }
            start = i + 1;
        } else {
            proof {
                assert(url@.subrange(start as int, i as int).push(url@[i as int]) =~= url@.subrange(
                    start as int,
                    i + 1,
                ));
                assert(split_pieces(next) =~= done.push(url@.subrange(start as int, i + 1)));
            }
        }
        i += 1;
    }
    let param = read_piece(url.substring_char(start, n));
    let ghost text = url@.subrange(start as int, n as int);
    let ghost before = params_view(params@);
    params.push(param);
    proof {
        assert(query.take(n - mark - 1) =~= query);
        assert(params_view(params@) =~= before.push(parse_piece(text)));
        assert(parse_pieces(done.push(text)) =~= parse_pieces(done).push(parse_piece(text)));
    }
    params
}

/// The list with every note emptied.
pub open spec fn without_notes(params: Seq<ParamModel>) -> Seq<ParamModel> {
    Seq::new(params.len(), |i: int| (params[i].0, params[i].1, Seq::empty()))
}

/// A parameter that a query string can carry and give back: its key is not
/// empty and holds neither `&` nor `=`, and its value holds no `&`.
pub open spec fn reads_back(p: ParamModel) -> bool {
    &&& p.0.len() > 0
    &&& !p.0.contains('&')
    &&& !p.0.contains('=')
    &&& !p.1.contains('&')
}

/// A text without `&` is one piece.
pub proof fn lemma_split_plain(text: Seq<char>)
    requires
        !text.contains('&'),
    ensures
        split_pieces(text) == seq![text],
    decreases text.len(),
{
    if text.len() > 0 {
        let front = text.drop_last();
        assert(text[text.len() - 1] != '&');
        assert forall|i: int| 0 <= i < front.len() implies front[i] != '&' by {
            assert(text[i] == front[i]);
        }
        lemma_split_plain(front);
        assert(front.push(text.last()) =~= text);
        assert(split_pieces(text) =~= seq![text]);
    } else {
        assert(text =~= Seq::empty());
    }
}

/// After an `&`, a text without `&` is one more piece.
pub proof fn lemma_split_append(head: Seq<char>, tail: Seq<char>)
    requires
        !tail.contains('&'),
    ensures
        split_pieces(head + seq!['&'] + tail) == split_pieces(head).push(tail),
    decreases tail.len(),
{
    let whole = head + seq!['&'] + tail;
    if tail.len() == 0 {
        assert(whole.drop_last() =~= head);
        assert(tail =~= Seq::empty());
    } else {
        let front = tail.drop_last();
        assert(tail[tail.len() - 1] != '&');
        assert forall|i: int| 0 <= i < front.len() implies front[i] != '&' by {
            assert(tail[i] == front[i]);
        }
        lemma_split_append(head, front);
        assert(whole.drop_last() =~= head + seq!['&'] + front);
        assert(whole.last() == tail.last());
        assert(front.push(tail.last()) =~= tail);
        assert(split_pieces(whole) =~= split_pieces(head).push(tail));
    }
}

/// What a parameter contributes holds no `&` and reads as the parameter
/// without its note.
pub proof fn lemma_piece_reads_back(p: ParamModel)
    requires
        reads_back(p),
    ensures
        !piece(p).contains('&'),
        parse_piece(piece(p)) == (p.0, p.1, Seq::<char>::empty()),
{
    let text = piece(p);
    assert forall|i: int| 0 <= i < text.len() implies text[i] != '&' by {
        if i < p.0.len() {
            assert(p.0[i] == text[i]);
        } else if i > p.0.len() {
            assert(p.1[i - p.0.len() - 1] == text[i]);
        }
    }
    assert forall|j: int| 0 <= j < p.0.len() implies text[j] != '=' by {
        assert(p.0[j] == text[j]);
    }
    lemma_mark_index_is(text, '=', p.0.len() as int);
    if p.1.len() == 0 {
        assert(p.1 =~= Seq::empty());
    } else {
        assert(text.subrange(0, p.0.len() as int) =~= p.0);
        assert(text.subrange((p.0.len() + 1) as int, text.len() as int) =~= p.1);
    }
}

/// The query string written for a list whose parameters all read back begins
/// with `?`, and its pieces are what the parameters contribute, one each.
pub proof fn lemma_pieces_of_suffix(params: Seq<ParamModel>)
    requires
        params.len() > 0,
        forall|i: int| 0 <= i < params.len() ==> reads_back(#[trigger] params[i]),
    ensures
        query_suffix(params).len() > 0,
        query_suffix(params)[0] == '?',
        split_pieces(query_suffix(params).drop_first()) == Seq::new(
            params.len(),
            |i: int| piece(params[i]),
        ),
    decreases params.len(),
{
    let p = params.last();
    let front = params.drop_last();
    let suffix = query_suffix(params);
    assert(reads_back(params[params.len() - 1]));
    lemma_piece_reads_back(p);
    if front.len() == 0 {
        assert(query_suffix(front) =~= Seq::empty());
        assert(suffix.drop_first() =~= piece(p));
        lemma_split_plain(piece(p));
        assert(split_pieces(suffix.drop_first()) =~= Seq::new(
            params.len(),
            |i: int| piece(params[i]),
        ));
    } else {
        assert forall|i: int| 0 <= i < front.len() implies reads_back(#[trigger] front[i]) by {
            assert(front[i] == params[i]);
        }
        lemma_pieces_of_suffix(front);
        let before = query_suffix(front);
        assert(suffix.drop_first() =~= before.drop_first() + seq!['&'] + piece(p));
        lemma_split_append(before.drop_first(), piece(p));
        assert(split_pieces(suffix.drop_first()) =~= Seq::new(
            params.len(),
            |i: int| piece(params[i]),
        ));
    }
}

/// The query string of a rebuilt URL reads as the list it was written from,
/// notes apart, where every parameter of the list reads back.
pub proof fn rebuilt_query_reads_as_its_list(url: Seq<char>, params: Seq<ParamModel>)
    requires
        forall|i: int| 0 <= i < params.len() ==> reads_back(#[trigger] params[i]),
    ensures
        parse_query(synced_url(url, params)) == without_notes(params),
{
    let base = base_of(url);
    let suffix = query_suffix(params);
    let once = base + suffix;
    lemma_base_of_rebuilt(url, params);
    if params.len() == 0 {
        assert(parse_query(once) =~= without_notes(params));
    } else {
        lemma_pieces_of_suffix(params);
        assert(once.subrange((base.len() + 1) as int, once.len() as int) =~= suffix.drop_first());
        assert forall|i: int| 0 <= i < params.len() implies parse_piece(piece(params[i]))
            == without_notes(params)[i] by {
            assert(reads_back(params[i]));
            lemma_piece_reads_back(params[i]);
        }
        assert(parse_query(once) =~= without_notes(params));
    }
}

/// Pieces put together again, with `&` between them.
pub open spec fn joined(pieces: Seq<Seq<char>>) -> Seq<char>
    decreases pieces.len(),
{
    if pieces.len() == 0 {
        Seq::empty()
    } else if pieces.len() == 1 {
        pieces[0]
    } else {
        joined(pieces.drop_last()) + seq!['&'] + pieces.last()
    }
}

/// A piece that reads as a parameter with a key, which writes the same piece
/// again.
pub open spec fn is_faithful(text: Seq<char>) -> bool {
    &&& parse_piece(text).0.len() > 0
    &&& piece(parse_piece(text)) == text
}

/// Every piece of the query string written for the list is faithful.
pub open spec fn writes_faithful_pieces(params: Seq<ParamModel>) -> bool {
    let pieces = split_pieces(query_suffix(params).drop_first());
    query_suffix(params).len() > 0 ==> forall|j: int|
        0 <= j < pieces.len() ==> is_faithful(#[trigger] pieces[j])
}

/// A query string always has a piece, and its pieces joined are the query
/// string.
pub proof fn lemma_join_of_split(query: Seq<char>)
    ensures
        split_pieces(query).len() >= 1,
        joined(split_pieces(query)) == query,
    decreases query.len(),
{
    if query.len() == 0 {
        assert(query =~= Seq::empty());
    } else {
        let front = query.drop_last();
        let c = query.last();
        lemma_join_of_split(front);
        let before = split_pieces(front);
        let pieces = split_pieces(query);
        assert(front.push(c) =~= query);
        if c == '&' {
            assert(pieces.drop_last() =~= before);
            assert(joined(pieces) =~= front.push(c));
        } else if before.len() == 1 {
            assert(joined(pieces) =~= front.push(c));
        } else {
            assert(pieces.drop_last() =~= before.drop_last());
            assert(joined(pieces) =~= joined(before).push(c));
        }
    }
}

/// Faithful pieces, read as parameters and written again, are the pieces
/// joined, after a `?`.
pub proof fn lemma_suffix_of_faithful(pieces: Seq<Seq<char>>)
    requires
        pieces.len() >= 1,
        forall|j: int| 0 <= j < pieces.len() ==> is_faithful(#[trigger] pieces[j]),
    ensures
        query_suffix(parse_pieces(pieces)) == seq!['?'] + joined(pieces),
    decreases pieces.len(),
{
    let read = parse_pieces(pieces);
    assert(is_faithful(pieces[pieces.len() - 1]));
    assert(read.last() == parse_piece(pieces.last()));
    assert(read.drop_last() =~= parse_pieces(pieces.drop_last()));
    if pieces.len() == 1 {
        assert(query_suffix(read.drop_last()) =~= Seq::empty());
    } else {
        let front = pieces.drop_last();
        assert forall|j: int| 0 <= j < front.len() implies is_faithful(#[trigger] front[j]) by {
            assert(front[j] == pieces[j]);
        }
        lemma_suffix_of_faithful(front);
        assert(query_suffix(read) =~= seq!['?'] + joined(pieces));
    }
}

/// A rebuilt URL, read back into a parameter list and rebuilt from that list,
/// is the same URL. This holds where every piece of the query string that was
/// written is faithful; a list whose parameters all read back writes such
/// pieces only.
pub proof fn sync_survives_reparsing(url: Seq<char>, params: Seq<ParamModel>)
    requires
        writes_faithful_pieces(params),
    ensures
        synced_url(synced_url(url, params), parse_query(synced_url(url, params))) == synced_url(
            url,
            params,
        ),
{
    let base = base_of(url);
    let suffix = query_suffix(params);
    let once = base + suffix;
    lemma_base_of_rebuilt(url, params);
    if suffix.len() == 0 {
        assert(once =~= base);
        assert(parse_query(once) =~= Seq::empty());
    } else {
        lemma_suffix_head(params);
        let query = suffix.drop_first();
        assert(once.subrange((base.len() + 1) as int, once.len() as int) =~= query);
        let pieces = split_pieces(query);
        lemma_join_of_split(query);
        lemma_suffix_of_faithful(pieces);
        assert(parse_query(once) =~= parse_pieces(pieces));
        assert(seq!['?'] + query =~= suffix);
    }
}

/// A list whose parameters all read back writes faithful pieces only.
pub proof fn lists_that_read_back_write_faithful_pieces(params: Seq<ParamModel>)
    requires
        forall|i: int| 0 <= i < params.len() ==> reads_back(#[trigger] params[i]),
    ensures
        writes_faithful_pieces(params),
{
    if params.len() > 0 {
        lemma_pieces_of_suffix(params);
        let pieces = split_pieces(query_suffix(params).drop_first());
        assert forall|j: int| 0 <= j < pieces.len() implies is_faithful(#[trigger] pieces[j]) by {
            assert(reads_back(params[j]));
            lemma_piece_reads_back(params[j]);
            assert(pieces[j] == piece(params[j]));
            assert(piece(parse_piece(pieces[j])) =~= pieces[j]);
        }
    } else {
        assert(query_suffix(params) =~= Seq::empty());
    }
}

/// A piece read as a parameter and written again is never longer than the
/// piece, and is as long only where it is the piece.
pub proof fn lemma_rewritten_piece(text: Seq<char>)
    ensures
        piece(parse_piece(text)).len() <= text.len(),
        piece(parse_piece(text)).len() == text.len() ==> piece(parse_piece(text)) == text,
{
    lemma_mark_index_holds(text, '=');
    let n = mark_index(text, '=');
    if n < text.len() {
        let key = text.subrange(0, n);
        let value = text.subrange(n + 1, text.len() as int);
        if value.len() > 0 {
            assert(key + seq!['='] + value =~= text);
        }
    }
}

/// Pieces read as parameters and written again are never longer than the
/// pieces joined after a `?`, and are as long only where every piece is
/// faithful.
pub proof fn lemma_rewritten_pieces(pieces: Seq<Seq<char>>)
    requires
        pieces.len() >= 1,
    ensures
        query_suffix(parse_pieces(pieces)).len() <= 1 + joined(pieces).len(),
        query_suffix(parse_pieces(pieces)).len() == 1 + joined(pieces).len() ==> forall|j: int|
            0 <= j < pieces.len() ==> is_faithful(#[trigger] pieces[j]),
    decreases pieces.len(),
{
    let read = parse_pieces(pieces);
    let last = pieces.last();
    assert(read.last() == parse_piece(last));
    assert(read.drop_last() =~= parse_pieces(pieces.drop_last()));
    lemma_rewritten_piece(last);
    if pieces.len() == 1 {
        assert(query_suffix(read.drop_last()) =~= Seq::empty());
        if query_suffix(read).len() == 1 + joined(pieces).len() {
            assert(is_faithful(pieces[0]));
        }
    } else {
        let front = pieces.drop_last();
        lemma_rewritten_pieces(front);
        if query_suffix(read).len() == 1 + joined(pieces).len() {
            assert(is_faithful(last));
            assert forall|j: int| 0 <= j < pieces.len() implies is_faithful(
                #[trigger] pieces[j],
            ) by {
                if j < front.len() {
                    assert(front[j] == pieces[j]);
                }
            }
        }
    }
}

/// Where some piece of the query string that was written is not faithful,
/// reading the rebuilt URL back and rebuilding it gives another URL: the
/// lists for which a rebuilt URL survives are those of faithful pieces, and
/// no others.
pub proof fn sync_survives_reparsing_only_then(url: Seq<char>, params: Seq<ParamModel>)
    requires
        !writes_faithful_pieces(params),
    ensures
        synced_url(synced_url(url, params), parse_query(synced_url(url, params))) != synced_url(
            url,
            params,
        ),
{
    let base = base_of(url);
    let suffix = query_suffix(params);
    let once = base + suffix;
    lemma_base_of_rebuilt(url, params);
    lemma_suffix_head(params);
    let query = suffix.drop_first();
    assert(once.subrange((base.len() + 1) as int, once.len() as int) =~= query);
    let pieces = split_pieces(query);
    lemma_join_of_split(query);
    lemma_rewritten_pieces(pieces);
    assert(parse_query(once) =~= parse_pieces(pieces));
    let twice = synced_url(once, parse_query(once));
    assert(twice.len() < once.len());
}

} // verus!
