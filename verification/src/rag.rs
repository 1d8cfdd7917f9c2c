//! Local retrieval over knowledge-base manuals: documents are cut into chunks, and a
//! query ranks chunks by keyword hits (stable, highest score first).
//! Reading files from disk is done by the application; chunking and ranking are here.

use vstd::prelude::*;
use vstd::string::*;
use crate::text::{has_sub, lowercase, trimmed, words, line_pieces, views};
use crate::text::{to_lower, contains, trim, split_words, split_line_pieces, push_char};
use crate::ranking::{rank_desc, positions, scores_match, insert_ranked_exec};
use crate::ranking::{lemma_rank_desc_sorted, lemma_rank_desc_members};

verus! {

/// A piece of a knowledge-base document.
#[derive(Debug, Clone)]
pub struct DocumentChunk {
    pub source: String,
    pub content: String,
}

/// Mathematical model of a [`DocumentChunk`].
pub struct ChunkView {
    pub source: Seq<char>,
    pub content: Seq<char>,
}

impl View for DocumentChunk {
    type V = ChunkView;

    open spec fn view(&self) -> ChunkView {
        ChunkView { source: self.source@, content: self.content@ }
    }
}

impl DocumentChunk {
    /// A field-by-field copy.
    pub fn duplicate(&self) -> (r: DocumentChunk)
        ensures
            r@ == self@,
    {
        DocumentChunk { source: self.source.clone(), content: self.content.clone() }
    }
}

/// The views of a sequence of chunks.
pub open spec fn chunk_views(s: Seq<DocumentChunk>) -> Seq<ChunkView> {
    s.map_values(|c: DocumentChunk| c@)
}

/// The loaded knowledge base: its root directory and its chunks.
#[derive(Debug, Clone)]
pub struct KnowledgeBase {
    pub root: String,
    pub chunks: Vec<DocumentChunk>,
}

impl Default for KnowledgeBase {
    fn default() -> (r: Self)
        ensures
            r.root@ == Seq::<char>::empty(),
            r.chunks@.len() == 0,
    {
        KnowledgeBase { root: String::new(), chunks: Vec::new() }
    }
}

/// Length in bytes of the UTF-8 encoding (what `str::len` returns).
pub open spec fn byte_len(s: Seq<char>) -> nat {
    vstd::utf8::encode_utf8(s).len()
}

/// Number of bytes of the UTF-8 encoding of `s` (`str::len`).
pub fn byte_count(s: &str) -> (n: usize)
    ensures
        n == byte_len(s@),
{
    s.as_bytes().len()
}

/// The largest `usize`.
pub open spec fn usize_top() -> int {
    usize::MAX as int
}

/// Saturating at the largest `usize`.
pub open spec fn sat(x: int) -> int {
    if x > usize_top() { usize_top() } else { x }
}

/// The words of `ws` longer than two bytes, in order.
pub open spec fn long_terms(ws: Seq<Seq<char>>) -> Seq<Seq<char>>
    decreases ws.len(),
{
    if ws.len() == 0 {
        seq![]
    } else if byte_len(ws.last()) > 2 {
        long_terms(ws.drop_last()).push(ws.last())
    } else {
        long_terms(ws.drop_last())
    }
}

/// Search terms of a lowercased query.
pub open spec fn search_terms(q: Seq<char>) -> Seq<Seq<char>> {
    long_terms(words(q))
}

/// Number of the first `n` terms found in `lower`.
pub open spec fn found_count(terms: Seq<Seq<char>>, lower: Seq<char>, n: int) -> nat
    decreases n,
{
    if n <= 0 {
        0
    } else {
        found_count(terms, lower, n - 1) + if has_sub(lower, terms[n - 1]) { 1nat } else { 0nat }
    }
}

/// Score of a chunk's content for a lowercased query: ten per search term it contains,
/// plus 25 when it contains the whole query (saturating at the largest `usize`).
pub open spec fn chunk_score(content: Seq<char>, q: Seq<char>) -> int {
    let lower = lowercase(content);
    let terms = search_terms(q);
    sat(sat((found_count(terms, lower, terms.len() as int) * 10) as int) + if has_sub(lower, q) { 25int } else { 0int })
}

/// Score of chunk `i` of `chunks`.
pub open spec fn score_key(chunks: Seq<ChunkView>, q: Seq<char>) -> spec_fn(int) -> int {
    |i: int| chunk_score(chunks[i].content, q)
}

/// Positions among the first `n` chunks with a positive score, in order.
pub open spec fn positive_positions(chunks: Seq<ChunkView>, q: Seq<char>, n: int) -> Seq<int>
    decreases n,
{
    if n <= 0 {
        seq![]
    } else if chunk_score(chunks[n - 1].content, q) > 0 {
        positive_positions(chunks, q, n - 1).push(n - 1)
    } else {
        positive_positions(chunks, q, n - 1)
    }
}

/// Chunk positions matching a query, best first (stable on equal scores).
pub open spec fn search_order(chunks: Seq<ChunkView>, query: Seq<char>) -> Seq<int> {
    let q = lowercase(query);
    rank_desc(positive_positions(chunks, q, chunks.len() as int), score_key(chunks, q))
}

/// The first `k` elements (all when fewer).
pub open spec fn take_at_most<A>(s: Seq<A>, k: nat) -> Seq<A> {
    if k <= s.len() { s.take(k as int) } else { s }
}

/// The chunks a search returns: the `top_k` best matching chunks.
pub open spec fn search_spec(chunks: Seq<ChunkView>, query: Seq<char>, top_k: nat) -> Seq<ChunkView> {
    take_at_most(search_order(chunks, query), top_k).map_values(|i: int| chunks[i])
}

/// Separator between passages of a context block.
pub open spec fn passage_separator() -> Seq<char> {
    "\n\n---\n\n"@
}

/// `items` joined by `sep`.
pub open spec fn join_with(items: Seq<Seq<char>>, sep: Seq<char>) -> Seq<char>
    decreases items.len(),
{
    if items.len() == 0 {
        seq![]
    } else if items.len() == 1 {
        items[0]
    } else {
        join_with(items.drop_last(), sep) + sep + items.last()
    }
}

/// A passage with its source label.
pub open spec fn passage(c: ChunkView) -> Seq<char> {
    "[source: "@ + c.source + "]\n"@ + c.content
}

/// Message when no passage matches.
pub open spec fn no_passages() -> Seq<char> {
    "No relevant knowledge-base passages found."@
}

/// The context block for a query.
pub open spec fn context_spec(chunks: Seq<ChunkView>, query: Seq<char>, top_k: nat) -> Seq<char> {
    let hits = search_spec(chunks, query, top_k);
    if hits.len() == 0 {
        no_passages()
    } else {
        join_with(hits.map_values(|c: ChunkView| passage(c)), passage_separator())
    }
}

/// One step of chunking: a paragraph (trimmed, empty ones skipped) is appended to the
/// current buffer, after a newline; the buffer is emitted first when the paragraph would
/// make it exceed `max` bytes.
pub open spec fn chunk_step(
    state: (Seq<Seq<char>>, Seq<char>),
    para: Seq<char>,
    max: nat,
) -> (Seq<Seq<char>>, Seq<char>) {
    let p = trimmed(para);
    if p.len() == 0 {
        state
    } else {
        let out = state.0;
        let buf = state.1;
        let flush = byte_len(buf) + byte_len(p) + 1 > max && buf.len() > 0;
        let out1 = if flush { out.push(buf) } else { out };
        let buf1 = if flush { Seq::<char>::empty() } else { buf };
        let buf2 = if buf1.len() > 0 { buf1.push('\n') } else { buf1 };
        (out1, buf2 + p)
    }
}

/// Chunking state after the first `n` paragraphs.
pub open spec fn chunk_fold(paras: Seq<Seq<char>>, max: nat, n: int) -> (Seq<Seq<char>>, Seq<char>)
    decreases n,
{
    if n <= 0 {
        (seq![], seq![])
    } else {
        chunk_step(chunk_fold(paras, max, n - 1), paras[n - 1], max)
    }
}

/// The chunks of a text, at most `max` bytes each unless one paragraph alone is longer.
pub open spec fn chunks_of(text: Seq<char>, max: nat) -> Seq<Seq<char>> {
    let paras = line_pieces(text);
    let st = chunk_fold(paras, max, paras.len() as int);
    if st.1.len() > 0 {
        st.0.push(st.1)
    } else {
        st.0
    }
}

/// Chunk size used when loading documents.
pub open spec fn chunk_size() -> nat {
    800
}

/// The chunks kept from the first `n` pieces: those longer than 40 bytes once trimmed.
pub open spec fn kept_pieces(pieces: Seq<Seq<char>>, n: int) -> Seq<Seq<char>>
    decreases n,
{
    if n <= 0 {
        seq![]
    } else if byte_len(trimmed(pieces[n - 1])) > 40 {
        kept_pieces(pieces, n - 1).push(pieces[n - 1])
    } else {
        kept_pieces(pieces, n - 1)
    }
}

/// The chunks a document contributes to the knowledge base.
pub open spec fn document_chunks(source: Seq<char>, text: Seq<char>) -> Seq<ChunkView> {
    let pieces = chunks_of(text, chunk_size());
    kept_pieces(pieces, pieces.len() as int).map_values(|p: Seq<char>| ChunkView { source, content: p })
}

/// Splits text into chunks of at most `max_chars` bytes along line boundaries.
pub fn chunk_text(text: &str, max_chars: usize) -> (r: Vec<String>)
    ensures
        views(r@) == chunks_of(text@, max_chars as nat),
{
    let paras = split_line_pieces(text);
    let mut out: Vec<String> = Vec::new();
    let mut buf = String::new();
    let mut i: usize = 0;
    while i < paras.len()
        invariant
            i <= paras@.len(),
            views(paras@) == line_pieces(text@),
            (views(out@), buf@) == chunk_fold(views(paras@), max_chars as nat, i as int),
        decreases paras@.len() - i,
    {
        let p = trim(paras[i].as_str());
        proof {
            assert(views(paras@)[i as int] == paras@[i as int]@);
        }
        if !p.as_str().is_empty() {
            let ghost out0 = views(out@);
            let ghost buf0 = buf@;
            let flush = (byte_count(buf.as_str()) as u128) + (byte_count(p.as_str()) as u128) + 1 > (
            max_chars as u128) && !buf.as_str().is_empty();
            if flush {
                out.push(buf);
                buf = String::new();
                proof {
                    assert(views(out@) =~= out0.push(buf0));
                }
            }
            if !buf.as_str().is_empty() {
                push_char(&mut buf, '\n');
            }
            buf.append(p.as_str());
        }
        proof {
            assert(chunk_fold(views(paras@), max_chars as nat, i + 1) == chunk_step(
                chunk_fold(views(paras@), max_chars as nat, i as int),
                views(paras@)[i as int],
                max_chars as nat,
            ));
        }
        i = i + 1;
    }
    if !buf.as_str().is_empty() {
        let ghost out0 = views(out@);
        let ghost buf0 = buf@;
        out.push(buf);
        proof {
            assert(views(out@) =~= out0.push(buf0));
        }
    }
    out
}

/// The chunks a document contributes: its text cut into chunks of 800 bytes, keeping
/// those longer than 40 bytes once trimmed, each labelled with `source`.
pub fn document_chunks_of(source: &str, text: &str) -> (r: Vec<DocumentChunk>)
    ensures
        chunk_views(r@) == document_chunks(source@, text@),
{
    let pieces = chunk_text(text, 800);
    let ghost ps = views(pieces@);
    let mut kept: Vec<DocumentChunk> = Vec::new();
    let mut i: usize = 0;
    while i < pieces.len()
        invariant
            i <= pieces@.len(),
            ps == views(pieces@),
            ps == chunks_of(text@, chunk_size()),
            chunk_views(kept@) == kept_pieces(ps, i as int).map_values(
                |p: Seq<char>| ChunkView { source: source@, content: p },
            ),
        decreases pieces@.len() - i,
    {
        proof {
            assert(ps[i as int] == pieces@[i as int]@);
        }
        let t = trim(pieces[i].as_str());
        if byte_count(t.as_str()) > 40 {
            let ghost before = chunk_views(kept@);
            kept.push(DocumentChunk { source: source.to_string(), content: pieces[i].clone() });
            proof {
                assert(chunk_views(kept@) =~= before.push(ChunkView { source: source@, content: ps[i as int] }));
                assert(kept_pieces(ps, i + 1) == kept_pieces(ps, i as int).push(ps[i as int]));
                assert(kept_pieces(ps, i + 1).map_values(|p: Seq<char>| ChunkView { source: source@, content: p })
                    =~= kept_pieces(ps, i as int).map_values(|p: Seq<char>| ChunkView { source: source@, content: p }).push(
                    ChunkView { source: source@, content: ps[i as int] }));
            }
        }
        i = i + 1;
    }
    kept
}

impl KnowledgeBase {
    /// An empty knowledge base rooted at `knowledge_base`.
    pub fn empty() -> (r: Self)
        ensures
            r.root@ == "knowledge_base"@,
            r.chunks@.len() == 0,
    {
        KnowledgeBase { root: "knowledge_base".to_string(), chunks: Vec::new() }
    }

    /// The `top_k` chunks that best match `query`: chunks scored by how many query terms
    /// (longer than two bytes) they contain, plus a bonus for the whole query; zero-score
    /// chunks left out; best first, ties in knowledge-base order.
    pub fn search(&self, query: &str, top_k: usize) -> (r: Vec<DocumentChunk>)
        ensures
            chunk_views(r@) == search_spec(chunk_views(self.chunks@), query@, top_k as nat),
    {
        let ghost cs = chunk_views(self.chunks@);
        let q = to_lower(query);
        let ghost key = score_key(cs, q@);
        let ws = split_words(q.as_str());
        let mut terms: Vec<String> = Vec::new();
        let mut w: usize = 0;
        while w < ws.len()
            invariant
                w <= ws@.len(),
                views(ws@) == words(q@),
                views(terms@) == long_terms(views(ws@).take(w as int)),
            decreases ws@.len() - w,
        {
            proof {
                assert(views(ws@).take(w + 1).drop_last() =~= views(ws@).take(w as int));
                assert(views(ws@).take(w + 1).last() == ws@[w as int]@);
            }
            if byte_count(ws[w].as_str()) > 2 {
                let ghost before = views(terms@);
                terms.push(ws[w].clone());
                proof {
                    assert(views(terms@) =~= before.push(ws@[w as int]@));
                }
            }
            w = w + 1;
        }
        proof {
            assert(views(ws@).take(ws@.len() as int) =~= views(ws@));
        }
        let mut ranked: Vec<(u64, usize)> = Vec::new();
        let mut i: usize = 0;
        while i < self.chunks.len()
            invariant
                i <= self.chunks@.len(),
                cs == chunk_views(self.chunks@),
                key == score_key(cs, q@),
                q@ == lowercase(query@),
                views(terms@) == search_terms(q@),
                scores_match(ranked@, key),
                positions(ranked@) == rank_desc(positive_positions(cs, q@, i as int), key),
            decreases self.chunks@.len() - i,
        {
            let lower = to_lower(self.chunks[i].content.as_str());
            let mut count: usize = 0;
            let mut t: usize = 0;
            while t < terms.len()
                invariant
                    t <= terms@.len(),
                    count <= t,
                    count == found_count(views(terms@), lower@, t as int),
                decreases terms@.len() - t,
            {
                proof {
                    assert(views(terms@)[t as int] == terms@[t as int]@);
                }
                if contains(lower.as_str(), terms[t].as_str()) {
                    count = count + 1;
                }
                t = t + 1;
            }
            let base: usize = if count > usize::MAX / 10 { usize::MAX } else { count * 10 };
            let bonus: usize = if contains(lower.as_str(), q.as_str()) { 25 } else { 0 };
            let score = base.saturating_add(bonus);
            proof {
                assert(cs[i as int] == self.chunks@[i as int]@);
                assert(score as int == key(i as int));
            }
            if score > 0 {
                let ghost before = positive_positions(cs, q@, i as int);
                insert_ranked_exec(&mut ranked, score as u64, i, Ghost(key));
                proof {
                    assert(positive_positions(cs, q@, i + 1) == before.push(i as int));
                    assert(before.push(i as int).drop_last() =~= before);
                }
            }
            i = i + 1;
        }
        let ghost order = positions(ranked@);
        let limit = if top_k < ranked.len() { top_k } else { ranked.len() };
        let mut out: Vec<DocumentChunk> = Vec::new();
        let mut j: usize = 0;
        proof {
            let pp = positive_positions(cs, q@, cs.len() as int);
            lemma_positions_in_range(cs, q@, cs.len() as int);
            lemma_rank_desc_members(pp, key);
            assert forall|m: int| 0 <= m < order.len() implies 0 <= #[trigger] order[m] < cs.len() by {
                let k = choose|k: int| 0 <= k < pp.len() && pp[k] == order[m];
                assert(0 <= pp[k] < cs.len());
            }
        }
        while j < limit
            invariant
                j <= limit <= ranked@.len(),
                limit == if top_k < ranked@.len() { top_k as int } else { ranked@.len() as int },
                order == positions(ranked@),
                order == search_order(cs, query@),
                cs == chunk_views(self.chunks@),
                forall|m: int| 0 <= m < order.len() ==> 0 <= #[trigger] order[m] < cs.len(),
                chunk_views(out@) == order.take(j as int).map_values(|m: int| cs[m]),
            decreases limit - j,
        {
            let pos = ranked[j].1;
            proof {
                assert(order[j as int] == pos as int);
            }
            let c = self.chunks[pos].duplicate();
            let ghost before = chunk_views(out@);
            out.push(c);
            proof {
                assert(chunk_views(out@) =~= before.push(cs[pos as int]));
                assert(order.take(j + 1).map_values(|m: int| cs[m]) =~= order.take(j as int).map_values(
                    |m: int| cs[m],
                ).push(cs[pos as int]));
            }
            j = j + 1;
        }
        proof {
            if top_k >= order.len() {
                assert(order.take(order.len() as int) =~= order);
            }
        }
        out
    }

    /// The passages that best match `query`, labelled with their sources and separated by
    /// `---`, or a fixed message when nothing matches.
    pub fn context_for(&self, query: &str, top_k: usize) -> (r: String)
        ensures
            r@ == context_spec(chunk_views(self.chunks@), query@, top_k as nat),
    {
        let hits = self.search(query, top_k);
        let ghost items = chunk_views(hits@).map_values(|c: ChunkView| passage(c));
        if hits.len() == 0 {
            return "No relevant knowledge-base passages found.".to_string();
        }
        let mut out = String::new();
        let mut i: usize = 0;
        while i < hits.len()
            invariant
                0 < hits@.len(),
                i <= hits@.len(),
                items == chunk_views(hits@).map_values(|c: ChunkView| passage(c)),
                i > 0 ==> out@ == join_with(items.take(i as int), passage_separator()),
                i == 0 ==> out@ == Seq::<char>::empty(),
            decreases hits@.len() - i,
        {
            if i > 0 {
                out.append("\n\n---\n\n");
            }
            out.append("[source: ");
            out.append(hits[i].source.as_str());
            out.append("]\n");
            out.append(hits[i].content.as_str());
            proof {
                let t = items.take(i + 1);
                assert(t.last() == passage(hits@[i as int]@));
                assert(t.drop_last() =~= items.take(i as int));
                if i == 0 {
                    assert(t.len() == 1);
                }
            }
            i = i + 1;
        }
        proof {
            assert(items.take(hits@.len() as int) =~= items);
        }
        out
    }
}

proof fn lemma_positions_in_range(chunks: Seq<ChunkView>, q: Seq<char>, n: int)
    requires
        n <= chunks.len(),
    ensures
        forall|m: int| 0 <= m < positive_positions(chunks, q, n).len() ==> 0 <= #[trigger] positive_positions(chunks, q, n)[m] < n,
        forall|m: int| 0 <= m < positive_positions(chunks, q, n).len() ==> chunk_score(
            chunks[#[trigger] positive_positions(chunks, q, n)[m]].content,
            q,
        ) > 0,
    decreases n,
{
    if n > 0 {
        lemma_positions_in_range(chunks, q, n - 1);
        let prev = positive_positions(chunks, q, n - 1);
        if chunk_score(chunks[n - 1].content, q) > 0 {
            assert forall|m: int| 0 <= m < prev.len() + 1 implies #[trigger] prev.push(n - 1)[m] == (if m
                < prev.len() { prev[m] } else { n - 1 }) by {}
        }
    }
}


/// Retrieval returns at most `top_k` chunks, each with a positive score, best first; and
/// when no more than `top_k` chunks score positively, every one of them is returned.
pub proof fn law_search_best_first(chunks: Seq<ChunkView>, query: Seq<char>, top_k: nat)
    ensures
        search_spec(chunks, query, top_k).len() <= top_k,
        ({
            let q = lowercase(query);
            let o = take_at_most(search_order(chunks, query), top_k);
            &&& forall|m: int| 0 <= m < o.len() ==> 0 <= #[trigger] o[m] < chunks.len()
            &&& forall|m: int| 0 <= m < o.len() ==> chunk_score(chunks[#[trigger] o[m]].content, q) > 0
            &&& forall|i: int, j: int| 0 <= i < j < o.len() ==> chunk_score(chunks[#[trigger] o[i]].content, q)
                >= chunk_score(chunks[#[trigger] o[j]].content, q)
            &&& forall|m: int| 0 <= m < o.len() ==> #[trigger] search_spec(chunks, query, top_k)[m] == chunks[o[m]]
        }),
        ({
            let q = lowercase(query);
            let pp = positive_positions(chunks, q, chunks.len() as int);
            pp.len() <= top_k ==> forall|i: int| 0 <= i < chunks.len() && chunk_score(chunks[i].content, q) > 0
                ==> #[trigger] search_order(chunks, query).contains(i)
        }),
{
    let q = lowercase(query);
    let key = score_key(chunks, q);
    let pp = positive_positions(chunks, q, chunks.len() as int);
    let full = search_order(chunks, query);
    lemma_rank_desc_sorted(pp, key);
    lemma_rank_desc_members(pp, key);
    lemma_positions_in_range(chunks, q, chunks.len() as int);
    lemma_positive_complete(chunks, q, chunks.len() as int);
    let o = take_at_most(full, top_k);
    assert forall|m: int| 0 <= m < o.len() implies 0 <= #[trigger] o[m] < chunks.len()
        && chunk_score(chunks[o[m]].content, q) > 0 by {
        assert(o[m] == full[m]);
        let k = choose|k: int| 0 <= k < pp.len() && pp[k] == full[m];
        assert(pp[k] == full[m]);
    }
    assert forall|i: int, j: int| 0 <= i < j < o.len() implies chunk_score(chunks[#[trigger] o[i]].content, q)
        >= chunk_score(chunks[#[trigger] o[j]].content, q) by {
        assert(o[i] == full[i] && o[j] == full[j]);
        assert(key(full[i]) >= key(full[j]));
    }
    if pp.len() <= top_k {
        broadcast use vstd::seq_lib::group_to_multiset_ensures;
        crate::ranking::lemma_rank_desc_elements(pp, key);
        assert forall|i: int| 0 <= i < chunks.len() && chunk_score(chunks[i].content, q) > 0
            implies #[trigger] full.contains(i) by {
            assert(pp.contains(i));
            assert(pp.to_multiset().count(i) > 0);
            assert(full.to_multiset().count(i) > 0);
        }
    }
}

proof fn lemma_positive_complete(chunks: Seq<ChunkView>, q: Seq<char>, n: int)
    requires
        n <= chunks.len(),
    ensures
        forall|i: int| 0 <= i < n && chunk_score(chunks[i].content, q) > 0 ==> #[trigger] positive_positions(
            chunks,
            q,
            n,
        ).contains(i),
    decreases n,
{
    if n > 0 {
        lemma_positive_complete(chunks, q, n - 1);
        let prev = positive_positions(chunks, q, n - 1);
        assert forall|i: int| 0 <= i < n && chunk_score(chunks[i].content, q) > 0 implies #[trigger] positive_positions(
            chunks,
            q,
            n,
        ).contains(i) by {
            if chunk_score(chunks[n - 1].content, q) > 0 {
                let cur = prev.push(n - 1);
                if i == n - 1 {
                    assert(cur[prev.len() as int] == i);
                } else {
                    assert(prev.contains(i));
                    let k = choose|k: int| 0 <= k < prev.len() && prev[k] == i;
                    assert(cur[k] == i);
                }
            } else {
                assert(i < n - 1);
            }
        }
    }
}


/// `s` holds no line break: it is a single paragraph.
pub open spec fn one_paragraph(s: Seq<char>) -> bool {
    forall|j: int| 0 <= j < s.len() ==> s[j] != '\n'
}

/// `s` holds no line separator at all.
pub open spec fn no_separator(s: Seq<char>) -> bool {
    forall|j: int| 0 <= j < s.len() ==> !crate::text::is_line_sep(#[trigger] s[j])
}

proof fn lemma_encode_concat(a: Seq<char>, b: Seq<char>)
    ensures
        vstd::utf8::encode_utf8(a + b) == vstd::utf8::encode_utf8(a) + vstd::utf8::encode_utf8(b),
    decreases a.len(),
{
    if a.len() == 0 {
        assert(a + b =~= b);
        assert(vstd::utf8::encode_utf8(a) =~= Seq::<u8>::empty());
        assert(vstd::utf8::encode_utf8(a) + vstd::utf8::encode_utf8(b) =~= vstd::utf8::encode_utf8(b));
    } else {
        assert((a + b).drop_first() =~= a.drop_first() + b);
        assert((a + b)[0] == a[0]);
        lemma_encode_concat(a.drop_first(), b);
        assert(vstd::utf8::encode_utf8(a + b) =~= vstd::utf8::encode_utf8(a) + vstd::utf8::encode_utf8(b));
    }
}

proof fn lemma_newline_one_byte()
    ensures
        byte_len(seq!['\n']) == 1,
{
    let s = seq!['\n'];
    assert(s.drop_first() =~= Seq::<char>::empty());
    assert(('\n' as u32) == 10u32);
    assert(vstd::utf8::has_width_1_encoding('\n' as u32));
    assert(vstd::utf8::encode_scalar('\n' as u32).len() == 1);
    assert(vstd::utf8::encode_utf8(s.drop_first()) =~= Seq::<u8>::empty());
}

proof fn lemma_pieces_separator_free(s: Seq<char>, cur: Seq<char>)
    requires
        no_separator(cur),
    ensures
        forall|i: int| 0 <= i < crate::text::pieces_from(s, cur).len() ==> no_separator(
            #[trigger] crate::text::pieces_from(s, cur)[i],
        ),
    decreases s.len(),
{
    if s.len() == 0 {
        assert(crate::text::pieces_from(s, cur) =~= seq![cur]);
        assert(seq![cur][0] == cur);
    } else {
        if crate::text::is_line_sep(s[0]) {
            assert(no_separator(Seq::<char>::empty()));
            lemma_pieces_separator_free(s.drop_first(), seq![]);
            let rest = crate::text::pieces_from(s.drop_first(), seq![]);
            assert(crate::text::pieces_from(s, cur) == seq![cur] + rest);
            assert forall|i: int| 0 <= i < (seq![cur] + rest).len() implies no_separator(#[trigger] (seq![cur] + rest)[i]) by {
                if i > 0 {
                    assert((seq![cur] + rest)[i] == rest[i - 1]);
                } else {
                    assert((seq![cur] + rest)[0] == cur);
                }
            }
        } else {
            let c2 = cur.push(s[0]);
            assert forall|j: int| 0 <= j < c2.len() implies !crate::text::is_line_sep(#[trigger] c2[j]) by {
                if j < cur.len() {
                    assert(c2[j] == cur[j]);
                }
            }
            lemma_pieces_separator_free(s.drop_first(), c2);
            assert(crate::text::pieces_from(s, cur) == crate::text::pieces_from(s.drop_first(), c2));
        }
    }
}

proof fn lemma_trim_separator_free(s: Seq<char>)
    requires
        no_separator(s),
    ensures
        no_separator(trimmed(s)),
{
    lemma_trim_start_sub(s);
    lemma_trim_end_sub(crate::text::trim_start(s));
}

proof fn lemma_trim_start_sub(s: Seq<char>)
    requires
        no_separator(s),
    ensures
        no_separator(crate::text::trim_start(s)),
    decreases s.len(),
{
    if s.len() > 0 && crate::text::is_ws(s[0]) {
        assert forall|j: int| 0 <= j < s.drop_first().len() implies !crate::text::is_line_sep(#[trigger] s.drop_first()[j]) by {
            assert(s.drop_first()[j] == s[j + 1]);
        }
        lemma_trim_start_sub(s.drop_first());
    }
}

proof fn lemma_trim_end_sub(s: Seq<char>)
    requires
        no_separator(s),
    ensures
        no_separator(crate::text::trim_end(s)),
    decreases s.len(),
{
    if s.len() > 0 && crate::text::is_ws(s.last()) {
        assert forall|j: int| 0 <= j < s.drop_last().len() implies !crate::text::is_line_sep(#[trigger] s.drop_last()[j]) by {
            assert(s.drop_last()[j] == s[j]);
        }
        lemma_trim_end_sub(s.drop_last());
    }
}

/// Every chunk emitted so far, and the buffer, fits in `max` bytes or is a single paragraph.
pub open spec fn chunks_fit(st: (Seq<Seq<char>>, Seq<char>), max: nat) -> bool {
    &&& forall|i: int| 0 <= i < st.0.len() ==> byte_len(#[trigger] st.0[i]) <= max || one_paragraph(st.0[i])
    &&& (byte_len(st.1) <= max || one_paragraph(st.1))
}

proof fn lemma_fold_fits(paras: Seq<Seq<char>>, max: nat, n: int)
    requires
        n <= paras.len(),
        forall|i: int| 0 <= i < paras.len() ==> no_separator(#[trigger] paras[i]),
    ensures
        chunks_fit(chunk_fold(paras, max, n), max),
    decreases n,
{
    if n <= 0 {
        assert(byte_len(Seq::<char>::empty()) == 0);
    } else {
        lemma_fold_fits(paras, max, n - 1);
        let st = chunk_fold(paras, max, n - 1);
        let p = trimmed(paras[n - 1]);
        lemma_trim_separator_free(paras[n - 1]);
        if p.len() > 0 {
            let out = st.0;
            let buf = st.1;
            let flush = byte_len(buf) + byte_len(p) + 1 > max && buf.len() > 0;
            let out1 = if flush { out.push(buf) } else { out };
            let buf1 = if flush { Seq::<char>::empty() } else { buf };
            let buf2 = if buf1.len() > 0 { buf1.push('\n') } else { buf1 };
            let nb = buf2 + p;
            assert forall|i: int| 0 <= i < out1.len() implies byte_len(#[trigger] out1[i]) <= max || one_paragraph(out1[i]) by {
                if i < out.len() {
                    assert(out1[i] == out[i]);
                }
            }
            if buf1.len() > 0 {
                lemma_encode_concat(buf1, seq!['\n']);
                lemma_encode_concat(buf2, p);
                lemma_newline_one_byte();
                assert(buf1 + seq!['\n'] =~= buf2);
            } else {
                assert(nb =~= p);
            }
            assert(chunk_fold(paras, max, n) == (out1, nb));
        }
    }
}

/// Chunking keeps every chunk within `max` bytes, except a chunk that is a single paragraph
/// (no line break), longer than `max` on its own.
pub proof fn law_chunks_bounded(text: Seq<char>, max: nat)
    ensures
        forall|i: int| 0 <= i < chunks_of(text, max).len() ==> byte_len(#[trigger] chunks_of(text, max)[i]) <= max
            || one_paragraph(chunks_of(text, max)[i]),
{
    let paras = line_pieces(text);
    assert(no_separator(Seq::<char>::empty()));
    lemma_pieces_separator_free(text, seq![]);
    lemma_fold_fits(paras, max, paras.len() as int);
    let st = chunk_fold(paras, max, paras.len() as int);
    if st.1.len() > 0 {
        let r = st.0.push(st.1);
        assert forall|i: int| 0 <= i < r.len() implies byte_len(#[trigger] r[i]) <= max || one_paragraph(r[i]) by {
            if i < st.0.len() {
                assert(r[i] == st.0[i]);
            }
        }
    }
}


proof fn lemma_long_terms_keep(ws: Seq<Seq<char>>, w: Seq<char>)
    requires
        ws.contains(w),
        byte_len(w) > 2,
    ensures
        long_terms(ws).contains(w),
    decreases ws.len(),
{
    let k = choose|k: int| 0 <= k < ws.len() && ws[k] == w;
    if k == ws.len() - 1 {
        let lt = long_terms(ws.drop_last());
        assert(long_terms(ws) == lt.push(w));
        assert(lt.push(w)[lt.len() as int] == w);
    } else {
        assert(ws.drop_last()[k] == w);
        lemma_long_terms_keep(ws.drop_last(), w);
        let lt = long_terms(ws.drop_last());
        let j = choose|j: int| 0 <= j < lt.len() && lt[j] == w;
        if byte_len(ws.last()) > 2 {
            assert(lt.push(ws.last())[j] == w);
        }
    }
}

proof fn lemma_found_some(terms: Seq<Seq<char>>, lower: Seq<char>, n: int, k: int)
    requires
        0 <= k < n <= terms.len(),
        has_sub(lower, terms[k]),
    ensures
        found_count(terms, lower, n) >= 1,
    decreases n,
{
    if k < n - 1 {
        lemma_found_some(terms, lower, n - 1, k);
    }
}

proof fn lemma_positive_len(chunks: Seq<ChunkView>, q: Seq<char>, n: int)
    ensures
        positive_positions(chunks, q, n).len() <= if n < 0 { 0 } else { n },
    decreases n,
{
    if n > 0 {
        lemma_positive_len(chunks, q, n - 1);
    }
}

/// Every whitespace-separated word of the lowercased query longer than two bytes is a search
/// term: a chunk whose lowercased content contains such a word scores at least 10, and when
/// the knowledge base holds no more than `top_k` chunks, a search returns that chunk.
pub proof fn law_query_words_are_terms(
    chunks: Seq<ChunkView>,
    query: Seq<char>,
    top_k: nat,
    w: Seq<char>,
    i: int,
)
    requires
        words(lowercase(query)).contains(w),
        byte_len(w) > 2,
        0 <= i < chunks.len(),
        has_sub(lowercase(chunks[i].content), w),
    ensures
        chunk_score(chunks[i].content, lowercase(query)) >= 10,
        chunks.len() <= top_k ==> search_spec(chunks, query, top_k).contains(chunks[i]),
{
    let q = lowercase(query);
    let terms = search_terms(q);
    let lower = lowercase(chunks[i].content);
    lemma_long_terms_keep(words(q), w);
    let k = choose|k: int| 0 <= k < terms.len() && terms[k] == w;
    lemma_found_some(terms, lower, terms.len() as int, k);
    let fc = found_count(terms, lower, terms.len() as int);
    assert(fc * 10 >= 10) by (nonlinear_arith)
        requires fc >= 1;
    assert(usize_top() >= 10);
    if chunks.len() <= top_k {
        law_search_best_first(chunks, query, top_k);
        let pp = positive_positions(chunks, q, chunks.len() as int);
        lemma_positive_len(chunks, q, chunks.len() as int);
        let full = search_order(chunks, query);
        lemma_rank_desc_sorted(pp, score_key(chunks, q));
        assert(full.contains(i));
        let m = choose|m: int| 0 <= m < full.len() && full[m] == i;
        assert(take_at_most(full, top_k) == full);
        assert(search_spec(chunks, query, top_k)[m] == chunks[i]);
    }
}


/// A chunk whose lowercased content contains the whole lowercased query scores at least 25.
pub proof fn law_whole_query_bonus(content: Seq<char>, query: Seq<char>)
    requires
        has_sub(lowercase(content), lowercase(query)),
    ensures
        chunk_score(content, lowercase(query)) >= 25,
{
    assert(usize_top() >= 25);
}


proof fn lemma_kept_pieces(pieces: Seq<Seq<char>>, n: int)
    requires
        n <= pieces.len(),
    ensures
        forall|k: int| 0 <= k < kept_pieces(pieces, n).len() ==> {
            &&& byte_len(trimmed(#[trigger] kept_pieces(pieces, n)[k])) > 40
            &&& exists|j: int| 0 <= j < n && pieces[j] == kept_pieces(pieces, n)[k]
        },
        forall|j: int| 0 <= j < n && byte_len(trimmed(#[trigger] pieces[j])) > 40 ==> kept_pieces(pieces, n).contains(pieces[j]),
    decreases n,
{
    if n > 0 {
        lemma_kept_pieces(pieces, n - 1);
        let prev = kept_pieces(pieces, n - 1);
        if byte_len(trimmed(pieces[n - 1])) > 40 {
            let cur = prev.push(pieces[n - 1]);
            assert forall|k: int| 0 <= k < cur.len() implies {
                &&& byte_len(trimmed(#[trigger] cur[k])) > 40
                &&& exists|j: int| 0 <= j < n && pieces[j] == cur[k]
            } by {
                if k < prev.len() {
                    assert(cur[k] == prev[k]);
                    let j = choose|j: int| 0 <= j < n - 1 && pieces[j] == prev[k];
                    assert(pieces[j] == cur[k]);
                } else {
                    assert(pieces[n - 1] == cur[k]);
                }
            }
            assert forall|j: int| 0 <= j < n && byte_len(trimmed(#[trigger] pieces[j])) > 40 implies cur.contains(pieces[j]) by {
                if j == n - 1 {
                    assert(cur[prev.len() as int] == pieces[j]);
                } else {
                    assert(prev.contains(pieces[j]));
                    let k = choose|k: int| 0 <= k < prev.len() && prev[k] == pieces[j];
                    assert(cur[k] == pieces[j]);
                }
            }
        } else {
            assert forall|k: int| 0 <= k < prev.len() implies exists|j: int| 0 <= j < n && pieces[j] == #[trigger] prev[k] by {
                let j = choose|j: int| 0 <= j < n - 1 && pieces[j] == prev[k];
                assert(pieces[j] == prev[k]);
            }
            assert forall|j: int| 0 <= j < n && byte_len(trimmed(#[trigger] pieces[j])) > 40 implies prev.contains(pieces[j]) by {
                assert(j < n - 1);
            }
        }
    }
}

/// What a document contributes to the knowledge base: its 800-byte chunks (a longer one only
/// when it is a single paragraph), each tagged with the document's source, keeping exactly
/// those longer than 40 bytes once trimmed.
pub proof fn law_document_chunks(source: Seq<char>, text: Seq<char>)
    ensures
        forall|i: int| 0 <= i < document_chunks(source, text).len() ==> {
            let c = #[trigger] document_chunks(source, text)[i];
            &&& c.source == source
            &&& byte_len(trimmed(c.content)) > 40
            &&& byte_len(c.content) <= 800 || one_paragraph(c.content)
            &&& chunks_of(text, 800).contains(c.content)
        },
        forall|j: int| 0 <= j < chunks_of(text, 800).len() && byte_len(trimmed(#[trigger] chunks_of(text, 800)[j])) > 40
            ==> exists|i: int| 0 <= i < document_chunks(source, text).len()
                && document_chunks(source, text)[i].content == chunks_of(text, 800)[j],
{
    let pieces = chunks_of(text, 800);
    let n = pieces.len() as int;
    law_chunks_bounded(text, 800);
    lemma_kept_pieces(pieces, n);
    let kept = kept_pieces(pieces, n);
    let dc = document_chunks(source, text);
    assert forall|i: int| 0 <= i < dc.len() implies {
        let c = #[trigger] dc[i];
        &&& c.source == source
        &&& byte_len(trimmed(c.content)) > 40
        &&& byte_len(c.content) <= 800 || one_paragraph(c.content)
        &&& pieces.contains(c.content)
    } by {
        assert(dc[i].content == kept[i]);
        let j = choose|j: int| 0 <= j < n && pieces[j] == kept[i];
        assert(byte_len(pieces[j]) <= 800 || one_paragraph(pieces[j]));
    }
    assert forall|j: int| 0 <= j < n && byte_len(trimmed(#[trigger] pieces[j])) > 40
        implies exists|i: int| 0 <= i < dc.len() && dc[i].content == pieces[j] by {
        assert(kept.contains(pieces[j]));
        let k = choose|k: int| 0 <= k < kept.len() && kept[k] == pieces[j];
        assert(dc[k].content == pieces[j]);
    }
}

}
