use vstd::prelude::*;
use crate::stable_order::{stable_order, stably_sorted};
use crate::text::{chars_of, copy_str, join_with, join_chars, push_str, seq_view, str_eq, string_from_chars};

verus! {

/// The vector collections of the W3A course assistant.
#[derive(Clone, Copy, Debug, PartialEq, Eq, Structural)]
pub enum W3ACollections {
    W3AMain,
}

impl W3ACollections {
    /// The collection's name in the vector store.
    pub fn as_str(&self) -> (res: &'static str)
        ensures
            res@ == "w3a_main"@,
    {
        match self {
            W3ACollections::W3AMain => "w3a_main",
        }
    }
}

/// How hard a user's query is, as the query analysis judges it.
#[derive(Clone, Copy, Debug, PartialEq, Eq, Structural)]
pub enum QueryComplexity {
    Base,
    Complex,
}

pub open spec fn complexity_name(c: QueryComplexity) -> Seq<char> {
    match c {
        QueryComplexity::Base => "base"@,
        QueryComplexity::Complex => "complex"@,
    }
}

impl QueryComplexity {
    /// The complexity's name.
    pub fn as_str(&self) -> (res: &'static str)
        ensures
            res@ == complexity_name(*self),
    {
        match self {
            QueryComplexity::Base => "base",
            QueryComplexity::Complex => "complex",
        }
    }
}

impl AsRef<str> for QueryComplexity {
    fn as_ref(&self) -> (res: &str)
        ensures
            res@ == complexity_name(*self),
    {
        self.as_str()
    }
}

/// The aspects a complex query is split into.
pub struct GeneratedAspects {
    pub aspects: Vec<String>,
}

/// Whether a search returns its hits or only the best text.
#[derive(Clone, Copy, Debug, PartialEq, Eq, Structural)]
pub enum ExecutionMode {
    Full,
    Partial,
}

/// The id of a point in the vector store.
pub enum PointId {
    Num(u64),
    Uuid(String),
}

pub enum PointIdView {
    Num(u64),
    Uuid(Seq<char>),
}

impl View for PointId {
    type V = PointIdView;

    open spec fn view(&self) -> PointIdView {
        match self {
            PointId::Num(n) => PointIdView::Num(*n),
            PointId::Uuid(u) => PointIdView::Uuid(u@),
        }
    }
}

/// Whether two point ids are the same.
pub fn same_point(a: &PointId, b: &PointId) -> (res: bool)
    ensures
        res == (a@ == b@),
{
    match (a, b) {
        (PointId::Num(x), PointId::Num(y)) => *x == *y,
        (PointId::Uuid(x), PointId::Uuid(y)) => str_eq(x.as_str(), y.as_str()),
        _ => false,
    }
}

pub open spec fn ids_view(v: Seq<PointId>) -> Seq<PointIdView> {
    v.map_values(|p: PointId| p@)
}

fn copy_point(p: &PointId) -> (res: PointId)
    ensures
        res@ == p@,
{
    match p {
        PointId::Num(n) => PointId::Num(*n),
        PointId::Uuid(u) => PointId::Uuid(u.clone()),
    }
}

fn seen_before(seen: &Vec<PointId>, p: &PointId) -> (res: bool)
    ensures
        res == ids_view(seen@).contains(p@),
{
    let mut i: usize = 0;
    while i < seen.len()
        invariant
            i <= seen@.len(),
            forall|j: int| 0 <= j < i ==> seen@[j]@ != p@,
        decreases seen.len() - i,
    {
        if same_point(&seen[i], p) {
            proof {
                assert(ids_view(seen@)[i as int] == p@);
            }
            return true;
        }
        i = i + 1;
    }
    proof {
        if ids_view(seen@).contains(p@) {
            let k = choose|k: int| 0 <= k < ids_view(seen@).len() && ids_view(seen@)[k] == p@;
            assert(seen@[k]@ == p@);
        }
    }
    false
}

/// The candidates kept when related results are added to the results found
/// so far (`seen`): those whose id is not seen yet, each id once, in order;
/// the ids seen afterwards.
pub open spec fn unseen_pick(seen: Seq<PointIdView>, cands: Seq<PointIdView>) -> (Seq<int>, Seq<PointIdView>)
    decreases cands.len(),
{
    if cands.len() == 0 {
        (Seq::empty(), seen)
    } else {
        let (picked, seen2) = unseen_pick(seen, cands.drop_last());
        let c = cands.last();
        if seen2.contains(c) {
            (picked, seen2)
        } else {
            (picked.push(cands.len() - 1), seen2.push(c))
        }
    }
}

/// Records the candidates' ids in `seen` and gives the positions of the
/// candidates whose id was not seen before (the first of each), in order.
pub fn select_unseen(seen: &mut Vec<PointId>, candidates: &Vec<PointId>) -> (res: Vec<usize>)
    ensures
        res@.map_values(|i: usize| i as int) == unseen_pick(ids_view(old(seen)@), ids_view(candidates@)).0,
        ids_view(final(seen)@) == unseen_pick(ids_view(old(seen)@), ids_view(candidates@)).1,
{
    let ghost s0 = ids_view(seen@);
    let ghost cv = ids_view(candidates@);
    let mut picked: Vec<usize> = Vec::new();
    let mut i: usize = 0;
    while i < candidates.len()
        invariant
            i <= candidates@.len(),
            cv == ids_view(candidates@),
            picked@.map_values(|k: usize| k as int) == unseen_pick(s0, cv.take(i as int)).0,
            ids_view(seen@) == unseen_pick(s0, cv.take(i as int)).1,
        decreases candidates.len() - i,
    {
        proof {
            assert(cv.take(i + 1).drop_last() =~= cv.take(i as int));
            assert(cv.take(i + 1).last() == candidates@[i as int]@);
        }
        if !seen_before(seen, &candidates[i]) {
            let ghost before_seen = seen@;
            let ghost before_picked = picked@;
            seen.push(copy_point(&candidates[i]));
            picked.push(i);
            proof {
                assert(ids_view(seen@) =~= ids_view(before_seen).push(candidates@[i as int]@));
                assert(picked@.map_values(|k: usize| k as int) =~= before_picked.map_values(
                    |k: usize| k as int,
                ).push(i as int));
            }
        }
        i = i + 1;
    }
    proof {
        assert(cv.take(candidates@.len() as int) =~= cv);
    }
    picked
}

/// No id is added twice: when the seen ids are distinct, they stay distinct,
/// and every kept candidate's id was not among the ids seen before.
pub proof fn lemma_unseen_distinct(seen: Seq<PointIdView>, cands: Seq<PointIdView>)
    requires
        seen.no_duplicates(),
    ensures
        unseen_pick(seen, cands).1.no_duplicates(),
        forall|k: int|
            0 <= k < unseen_pick(seen, cands).0.len() ==> !seen.contains(
                cands[#[trigger] unseen_pick(seen, cands).0[k]],
            ),
    decreases cands.len(),
{
    if cands.len() > 0 {
        let init = cands.drop_last();
        lemma_unseen_distinct(seen, init);
        lemma_unseen_picked_in_range(seen, init);
        lemma_unseen_grows(seen, init);
        let (picked, seen2) = unseen_pick(seen, init);
        let c = cands.last();
        assert forall|k: int| 0 <= k < picked.len() implies cands[picked[k]] == init[picked[k]] by {}
        if !seen2.contains(c) {
            assert(!seen.contains(c)) by {
                if seen.contains(c) {
                    let j = choose|j: int| 0 <= j < seen.len() && seen[j] == c;
                    assert(seen2[j] == c);
                }
            }
        }
    }
}

proof fn lemma_unseen_picked_in_range(seen: Seq<PointIdView>, cands: Seq<PointIdView>)
    ensures
        forall|k: int|
            0 <= k < unseen_pick(seen, cands).0.len() ==> 0 <= #[trigger] unseen_pick(seen, cands).0[k]
                < cands.len(),
    decreases cands.len(),
{
    if cands.len() > 0 {
        let init = cands.drop_last();
        lemma_unseen_picked_in_range(seen, init);
        let (picked, seen2) = unseen_pick(seen, init);
        if !seen2.contains(cands.last()) {
            assert forall|k: int| 0 <= k < picked.push(cands.len() - 1).len() implies 0
                <= #[trigger] picked.push(cands.len() - 1)[k] < cands.len() by {
                if k < picked.len() {
                    assert(picked.push(cands.len() - 1)[k] == picked[k]);
                }
            }
        }
    }
}

proof fn lemma_unseen_grows(seen: Seq<PointIdView>, cands: Seq<PointIdView>)
    ensures
        unseen_pick(seen, cands).1.len() >= seen.len(),
        forall|j: int| 0 <= j < seen.len() ==> #[trigger] unseen_pick(seen, cands).1[j] == seen[j],
    decreases cands.len(),
{
    if cands.len() > 0 {
        lemma_unseen_grows(seen, cands.drop_last());
    }
}

/// What describes a document of the hybrid search.
pub struct DocumentMetadata {
    pub title: String,
    pub extra: Option<String>,
    pub hierarchy: Option<String>,
}

/// A retrieved document as the context builder reads it: a text alone, or a
/// text under its document's title and extra description.
pub enum ContextDocument {
    Plain(String),
    Titled { title: String, extra: Option<String>, text: String },
}

/// The block of one document in the context.
pub open spec fn document_block(d: ContextDocument) -> Seq<char> {
    match d {
        ContextDocument::Plain(t) => t@,
        ContextDocument::Titled { title, extra, text } => {
            let header = "=== "@ + title@ + " ==="@ + match extra {
                Some(e) => "\n"@ + e@,
                None => Seq::empty(),
            };
            header + "\n\n"@ + text@
        },
    }
}

/// Builds the context for the model from retrieved documents.
pub struct DefaultContextBuilder {
    pub separator: String,
}

impl DefaultContextBuilder {
    /// A builder with a blank line as separator.
    pub fn new() -> (res: DefaultContextBuilder)
        ensures
            res.separator@ == "\n\n"@,
    {
        DefaultContextBuilder { separator: copy_str("\n\n") }
    }

    /// The builder with another separator.
    pub fn with_separator(self, separator: String) -> (res: DefaultContextBuilder)
        ensures
            res.separator@ == separator@,
    {
        DefaultContextBuilder { separator }
    }

    /// The documents' blocks joined with a blank line (whatever the separator
    /// setting).
    pub fn build_context(&self, documents: &Vec<ContextDocument>) -> (res: String)
        ensures
            res@ == join_with(documents@.map_values(|d: ContextDocument| document_block(d)), "\n\n"@),
    {
        let ghost dv = documents@.map_values(|d: ContextDocument| document_block(d));
        let mut blocks: Vec<Vec<char>> = Vec::new();
        let mut i: usize = 0;
        while i < documents.len()
            invariant
                i <= documents@.len(),
                dv == documents@.map_values(|d: ContextDocument| document_block(d)),
                seq_view(blocks@) == dv.take(i as int),
            decreases documents.len() - i,
        {
            let mut b: Vec<char> = Vec::new();
            match &documents[i] {
                ContextDocument::Plain(t) => {
                    push_str(&mut b, t.as_str());
                },
                ContextDocument::Titled { title, extra, text } => {
                    push_str(&mut b, "=== ");
                    push_str(&mut b, title.as_str());
                    push_str(&mut b, " ===");
                    match extra {
                        Some(e) => {
                            push_str(&mut b, "\n");
                            push_str(&mut b, e.as_str());
                        },
                        None => {},
                    }
                    push_str(&mut b, "\n\n");
                    push_str(&mut b, text.as_str());
                },
            }
            proof {
                assert(b@ =~= document_block(documents@[i as int]));
            }
            let ghost before = blocks@;
            blocks.push(b);
            proof {
                assert(seq_view(blocks@) =~= seq_view(before).push(dv[i as int]));
                assert(dv.take(i + 1) =~= dv.take(i as int).push(dv[i as int]));
            }
            i = i + 1;
        }
        proof {
            assert(dv.take(documents@.len() as int) =~= dv);
        }
        let sep = chars_of("\n\n");
        let joined = join_chars(&blocks, sep.as_slice());
        string_from_chars(joined.as_slice())
    }
}


/// What the hybrid search gathered about one document: the rank of its
/// best chunk hit, the indices of its chunk hits in order, and the rank of
/// its description hit.
pub struct DocumentAggregation {
    pub document_id: String,
    pub chunk_rank: Option<usize>,
    pub matched_chunk_indices: Vec<u32>,
    pub description_rank: Option<usize>,
}

pub struct AggView {
    pub document_id: Seq<char>,
    pub chunk_rank: Option<usize>,
    pub matched: Seq<u32>,
    pub description_rank: Option<usize>,
}

pub open spec fn agg_view(a: DocumentAggregation) -> AggView {
    AggView {
        document_id: a.document_id@,
        chunk_rank: a.chunk_rank,
        matched: a.matched_chunk_indices@,
        description_rank: a.description_rank,
    }
}

pub open spec fn aggs_view(v: Seq<DocumentAggregation>) -> Seq<AggView> {
    v.map_values(|a: DocumentAggregation| agg_view(a))
}

/// Where the document `id` stands among the gathered documents.
pub open spec fn doc_position(aggs: Seq<AggView>, id: Seq<char>) -> Option<int>
    decreases aggs.len(),
{
    if aggs.len() == 0 {
        None
    } else if aggs.last().document_id == id {
        Some(aggs.len() - 1)
    } else {
        doc_position(aggs.drop_last(), id)
    }
}

pub proof fn lemma_doc_position(aggs: Seq<AggView>, id: Seq<char>)
    ensures
        match doc_position(aggs, id) {
            Some(p) => 0 <= p < aggs.len() && aggs[p].document_id == id,
            None => forall|i: int| 0 <= i < aggs.len() ==> aggs[i].document_id != id,
        },
    decreases aggs.len(),
{
    if aggs.len() > 0 && aggs.last().document_id != id {
        lemma_doc_position(aggs.drop_last(), id);
        assert forall|i: int| 0 <= i < aggs.len() - 1 implies aggs[i] == aggs.drop_last()[i] by {}
    }
}

/// The documents after the chunk hits, in rank order: a new document takes
/// the hit's rank; a known one adds the hit's chunk index.
pub open spec fn gather_chunks(hits: Seq<(Seq<char>, u32)>) -> Seq<AggView>
    decreases hits.len(),
{
    if hits.len() == 0 {
        Seq::empty()
    } else {
        let aggs = gather_chunks(hits.drop_last());
        let (id, chunk) = hits.last();
        match doc_position(aggs, id) {
            Some(p) => aggs.update(p, AggView { matched: aggs[p].matched.push(chunk), ..aggs[p] }),
            None => aggs.push(
                AggView {
                    document_id: id,
                    chunk_rank: Some((hits.len() - 1) as usize),
                    matched: seq![chunk],
                    description_rank: None,
                },
            ),
        }
    }
}

/// The documents after the description hits, in rank order: a known
/// document takes the hit's rank (a later hit replacing an earlier one); a
/// new one is added with it.
pub open spec fn gather_descriptions(aggs: Seq<AggView>, hits: Seq<Seq<char>>) -> Seq<AggView>
    decreases hits.len(),
{
    if hits.len() == 0 {
        aggs
    } else {
        let before = gather_descriptions(aggs, hits.drop_last());
        let id = hits.last();
        let rank = Some((hits.len() - 1) as usize);
        match doc_position(before, id) {
            Some(p) => before.update(p, AggView { description_rank: rank, ..before[p] }),
            None => before.push(
                AggView { document_id: id, chunk_rank: None, matched: Seq::empty(), description_rank: rank },
            ),
        }
    }
}

pub open spec fn chunk_hits_view(v: Seq<(String, u32)>) -> Seq<(Seq<char>, u32)> {
    v.map_values(|h: (String, u32)| (h.0@, h.1))
}

pub open spec fn ids_text_view(v: Seq<String>) -> Seq<Seq<char>> {
    v.map_values(|h: String| h@)
}

fn find_doc(aggs: &Vec<DocumentAggregation>, id: &str) -> (res: Option<usize>)
    ensures
        match res {
            Some(p) => doc_position(aggs_view(aggs@), id@) == Some(p as int),
            None => doc_position(aggs_view(aggs@), id@) is None,
        },
{
    let ghost av = aggs_view(aggs@);
    let mut k: usize = aggs.len();
    assert(av.subrange(0, k as int) =~= av);
    while k > 0
        invariant
            k <= aggs@.len(),
            av == aggs_view(aggs@),
            doc_position(av, id@) == doc_position(av.subrange(0, k as int), id@),
        decreases k,
    {
        let ghost pre = av.subrange(0, k as int);
        if str_eq(aggs[k - 1].document_id.as_str(), id) {
            assert(pre.last() == av[k - 1]);
            return Some(k - 1);
        }
        assert(pre.drop_last() =~= av.subrange(0, k - 1));
        k = k - 1;
    }
    assert(av.subrange(0, 0) =~= Seq::<AggView>::empty());
    None
}

/// Gathers the hits of the hybrid search by document: `chunk_hits` are the
/// chunk hits in rank order (document and chunk index), `description_hits`
/// the documents of the description hits in rank order.
pub fn aggregate_hits(chunk_hits: &Vec<(String, u32)>, description_hits: &Vec<String>) -> (res: Vec<DocumentAggregation>)
    requires
        chunk_hits@.len() <= usize::MAX,
    ensures
        aggs_view(res@) == gather_descriptions(
            gather_chunks(chunk_hits_view(chunk_hits@)),
            ids_text_view(description_hits@),
        ),
        doc_ids(aggs_view(res@)) == first_appearances(
            hit_ids(chunk_hits_view(chunk_hits@)) + ids_text_view(description_hits@),
        ),
        forall|i: int|
            0 <= i < res@.len() ==> gathered_right(
                #[trigger] aggs_view(res@)[i],
                chunk_hits_view(chunk_hits@),
                ids_text_view(description_hits@),
            ),
{
    let ghost cv = chunk_hits_view(chunk_hits@);
    let mut aggs: Vec<DocumentAggregation> = Vec::new();
    let mut i: usize = 0;
    while i < chunk_hits.len()
        invariant
            i <= chunk_hits@.len(),
            cv == chunk_hits_view(chunk_hits@),
            aggs_view(aggs@) == gather_chunks(cv.take(i as int)),
        decreases chunk_hits.len() - i,
    {
        let ghost before = aggs_view(aggs@);
        proof {
            assert(cv.take(i + 1).drop_last() =~= cv.take(i as int));
            assert(cv.take(i + 1).last() == (chunk_hits@[i as int].0@, chunk_hits@[i as int].1));
        }
        let id = &chunk_hits[i].0;
        let chunk = chunk_hits[i].1;
        match find_doc(&aggs, id.as_str()) {
            Some(p) => {
                proof {
                    lemma_doc_position(before, id@);
                }
                let mut a = aggs.remove(p);
                a.matched_chunk_indices.push(chunk);
                aggs.insert(p, a);
                proof {
                    assert(aggs_view(aggs@) =~= before.update(
                        p as int,
                        AggView { matched: before[p as int].matched.push(chunk), ..before[p as int] },
                    ));
                }
            },
            None => {
                let mut m: Vec<u32> = Vec::new();
                m.push(chunk);
                let a = DocumentAggregation {
                    document_id: id.clone(),
                    chunk_rank: Some(i),
                    matched_chunk_indices: m,
                    description_rank: None,
                };
                aggs.push(a);
                proof {
                    assert(m@ =~= seq![chunk]);
                    assert(aggs_view(aggs@) =~= before.push(
                        AggView {
                            document_id: id@,
                            chunk_rank: Some(i),
                            matched: seq![chunk],
                            description_rank: None,
                        },
                    ));
                }
            },
        }
        i = i + 1;
    }
    proof {
        assert(cv.take(chunk_hits@.len() as int) =~= cv);
    }
    let ghost base = aggs_view(aggs@);
    let ghost dv = ids_text_view(description_hits@);
    let mut j: usize = 0;
    while j < description_hits.len()
        invariant
            j <= description_hits@.len(),
            dv == ids_text_view(description_hits@),
            aggs_view(aggs@) == gather_descriptions(base, dv.take(j as int)),
        decreases description_hits.len() - j,
    {
        let ghost before = aggs_view(aggs@);
        proof {
            assert(dv.take(j + 1).drop_last() =~= dv.take(j as int));
            assert(dv.take(j + 1).last() == description_hits@[j as int]@);
        }
        let id = &description_hits[j];
        match find_doc(&aggs, id.as_str()) {
            Some(p) => {
                proof {
                    lemma_doc_position(before, id@);
                }
                let mut a = aggs.remove(p);
                a.description_rank = Some(j);
                aggs.insert(p, a);
                proof {
                    assert(aggs_view(aggs@) =~= before.update(
                        p as int,
                        AggView { description_rank: Some(j), ..before[p as int] },
                    ));
                }
            },
            None => {
                let a = DocumentAggregation {
                    document_id: id.clone(),
                    chunk_rank: None,
                    matched_chunk_indices: Vec::new(),
                    description_rank: Some(j),
                };
                aggs.push(a);
                proof {
                    assert(aggs_view(aggs@) =~= before.push(
                        AggView {
                            document_id: id@,
                            chunk_rank: None,
                            matched: Seq::empty(),
                            description_rank: Some(j),
                        },
                    ));
                }
            },
        }
        j = j + 1;
    }
    proof {
        assert(dv.take(description_hits@.len() as int) =~= dv);
        lemma_aggregate_hits_gathers(cv, dv);
    }
    aggs
}

pub open spec fn distinct_docs(aggs: Seq<AggView>) -> bool {
    forall|i: int, j: int| 0 <= i < j < aggs.len() ==> aggs[i].document_id != aggs[j].document_id
}

proof fn lemma_gather_chunks_distinct(hits: Seq<(Seq<char>, u32)>)
    ensures
        distinct_docs(gather_chunks(hits)),
    decreases hits.len(),
{
    if hits.len() > 0 {
        lemma_gather_chunks_distinct(hits.drop_last());
        let aggs = gather_chunks(hits.drop_last());
        lemma_doc_position(aggs, hits.last().0);
    }
}

/// Each document is gathered once, whatever the hits.
pub proof fn lemma_documents_gathered_once(chunk_hits: Seq<(Seq<char>, u32)>, description_hits: Seq<Seq<char>>)
    ensures
        distinct_docs(gather_descriptions(gather_chunks(chunk_hits), description_hits)),
    decreases description_hits.len(),
{
    if description_hits.len() == 0 {
        lemma_gather_chunks_distinct(chunk_hits);
    } else {
        lemma_documents_gathered_once(chunk_hits, description_hits.drop_last());
        let before = gather_descriptions(gather_chunks(chunk_hits), description_hits.drop_last());
        lemma_doc_position(before, description_hits.last());
    }
}

/// The documents named by hits, each once, in the order of their first hit.
pub open spec fn first_appearances(ids: Seq<Seq<char>>) -> Seq<Seq<char>>
    decreases ids.len(),
{
    if ids.len() == 0 {
        Seq::empty()
    } else {
        let seen = first_appearances(ids.drop_last());
        if seen.contains(ids.last()) {
            seen
        } else {
            seen.push(ids.last())
        }
    }
}

/// The position of the first hit on `id`, if any.
pub open spec fn first_hit(ids: Seq<Seq<char>>, id: Seq<char>) -> Option<int>
    decreases ids.len(),
{
    if ids.len() == 0 {
        None
    } else {
        match first_hit(ids.drop_last(), id) {
            Some(k) => Some(k),
            None => if ids.last() == id {
                Some(ids.len() - 1)
            } else {
                None
            },
        }
    }
}

/// The position of the last hit on `id`, if any.
pub open spec fn last_hit(ids: Seq<Seq<char>>, id: Seq<char>) -> Option<int>
    decreases ids.len(),
{
    if ids.len() == 0 {
        None
    } else if ids.last() == id {
        Some(ids.len() - 1)
    } else {
        last_hit(ids.drop_last(), id)
    }
}

/// The chunk indices of the chunk hits on `id`, in hit order, one per hit.
pub open spec fn hit_chunks(hits: Seq<(Seq<char>, u32)>, id: Seq<char>) -> Seq<u32>
    decreases hits.len(),
{
    if hits.len() == 0 {
        Seq::empty()
    } else if hits.last().0 == id {
        hit_chunks(hits.drop_last(), id).push(hits.last().1)
    } else {
        hit_chunks(hits.drop_last(), id)
    }
}

/// The documents named by the chunk hits, in hit order.
pub open spec fn hit_ids(hits: Seq<(Seq<char>, u32)>) -> Seq<Seq<char>> {
    hits.map_values(|h: (Seq<char>, u32)| h.0)
}

pub open spec fn rank_int(r: Option<usize>) -> Option<int> {
    match r {
        Some(k) => Some(k as int),
        None => None,
    }
}

pub open spec fn doc_ids(aggs: Seq<AggView>) -> Seq<Seq<char>> {
    aggs.map_values(|a: AggView| a.document_id)
}

/// What a gathered document says about the hits: its chunk indices are those of
/// the chunk hits on it, in order; its chunk rank is the position of its first
/// chunk hit; its description rank that of its last description hit.
pub open spec fn gathered_right(a: AggView, hits: Seq<(Seq<char>, u32)>, descs: Seq<Seq<char>>) -> bool {
    &&& a.matched == hit_chunks(hits, a.document_id)
    &&& rank_int(a.chunk_rank) == first_hit(hit_ids(hits), a.document_id)
    &&& rank_int(a.description_rank) == last_hit(descs, a.document_id)
}

proof fn lemma_push_contains(s: Seq<Seq<char>>, y: Seq<char>, x: Seq<char>)
    ensures
        s.push(y).contains(x) == (s.contains(x) || y == x),
{
    if s.push(y).contains(x) && y != x {
        let k = choose|k: int| 0 <= k < s.push(y).len() && s.push(y)[k] == x;
        assert(s[k] == x);
    }
    if s.contains(x) {
        let k = choose|k: int| 0 <= k < s.len() && s[k] == x;
        assert(s.push(y)[k] == x);
    }
    if y == x {
        assert(s.push(y)[s.len() as int] == x);
    }
}

proof fn lemma_first_appearances_contains(ids: Seq<Seq<char>>, x: Seq<char>)
    ensures
        first_appearances(ids).contains(x) == ids.contains(x),
        (first_hit(ids, x) is Some) == ids.contains(x),
    decreases ids.len(),
{
    if ids.len() > 0 {
        let init = ids.drop_last();
        let y = ids.last();
        lemma_first_appearances_contains(init, x);
        assert(ids =~= init.push(y));
        lemma_push_contains(init, y, x);
        let fa = first_appearances(init);
        lemma_push_contains(fa, y, x);
        lemma_first_appearances_contains(init, y);
    }
}

proof fn lemma_hit_chunks_absent(hits: Seq<(Seq<char>, u32)>, x: Seq<char>)
    requires
        !hit_ids(hits).contains(x),
    ensures
        hit_chunks(hits, x) == Seq::<u32>::empty(),
    decreases hits.len(),
{
    if hits.len() > 0 {
        let init = hits.drop_last();
        assert(hit_ids(hits)[hits.len() - 1] == hits.last().0);
        assert forall|k: int| 0 <= k < hit_ids(init).len() implies hit_ids(init)[k] != x by {
            assert(hit_ids(init)[k] == hit_ids(hits)[k]);
        }
        lemma_hit_chunks_absent(init, x);
    }
}

#[verifier::spinoff_prover]
proof fn lemma_gather_chunks_right(hits: Seq<(Seq<char>, u32)>)
    requires
        hits.len() <= usize::MAX,
    ensures
        doc_ids(gather_chunks(hits)) == first_appearances(hit_ids(hits)),
        forall|i: int|
            0 <= i < gather_chunks(hits).len() ==> gathered_right(
                #[trigger] gather_chunks(hits)[i],
                hits,
                Seq::empty(),
            ),
    decreases hits.len(),
{
    if hits.len() > 0 {
        let init = hits.drop_last();
        let (id, c) = hits.last();
        lemma_gather_chunks_right(init);
        lemma_gather_chunks_distinct(init);
        let a0 = gather_chunks(init);
        let a = gather_chunks(hits);
        let ids0 = hit_ids(init);
        assert(hit_ids(hits) =~= ids0.push(id));
        assert(hit_ids(hits).drop_last() =~= ids0);
        lemma_doc_position(a0, id);
        lemma_first_appearances_contains(ids0, id);
        let fa0 = first_appearances(ids0);
        match doc_position(a0, id) {
            Some(p) => {
                assert(doc_ids(a0)[p] == id);
                assert(fa0.contains(id));
                assert(doc_ids(a) =~= doc_ids(a0));
                assert forall|i: int| 0 <= i < a.len() implies gathered_right(#[trigger] a[i], hits, Seq::empty()) by {
                    assert(gathered_right(a0[i], init, Seq::empty()));
                    if i != p {
                        assert(a[i] == a0[i]);
                        assert(a0[i].document_id != id);
                    }
                }
            },
            None => {
                assert(!fa0.contains(id)) by {
                    if fa0.contains(id) {
                        let k = choose|k: int| 0 <= k < fa0.len() && fa0[k] == id;
                        assert(doc_ids(a0)[k] == a0[k].document_id);
                    }
                }
                assert(doc_ids(a) =~= doc_ids(a0).push(id));
                lemma_hit_chunks_absent(init, id);
                assert forall|i: int| 0 <= i < a.len() implies gathered_right(#[trigger] a[i], hits, Seq::empty()) by {
                    if i < a0.len() {
                        assert(gathered_right(a0[i], init, Seq::empty()));
                        assert(a[i] == a0[i]);
                        assert(a0[i].document_id != id);
                    } else {
                        assert(hit_chunks(init, id) == Seq::<u32>::empty());
                        assert(seq![c] =~= Seq::<u32>::empty().push(c));
                    }
                }
            },
        }
    }
}

/// What the hybrid search gathers, whatever the hits: each document named by a
/// hit once, in the order of its first hit (chunk hits before description hits);
/// for each, every chunk hit on it contributes its chunk index, in hit order;
/// its chunk rank is the position of its first chunk hit and its description
/// rank that of its last description hit (`None` where there is none).
#[verifier::spinoff_prover]
pub proof fn lemma_aggregate_hits_gathers(hits: Seq<(Seq<char>, u32)>, descs: Seq<Seq<char>>)
    requires
        hits.len() <= usize::MAX,
        descs.len() <= usize::MAX,
    ensures
        doc_ids(gather_descriptions(gather_chunks(hits), descs)) == first_appearances(hit_ids(hits) + descs),
        forall|i: int|
            0 <= i < gather_descriptions(gather_chunks(hits), descs).len() ==> gathered_right(
                #[trigger] gather_descriptions(gather_chunks(hits), descs)[i],
                hits,
                descs,
            ),
    decreases descs.len(),
{
    if descs.len() == 0 {
        lemma_gather_chunks_right(hits);
        assert(hit_ids(hits) + descs =~= hit_ids(hits));
    } else {
        let init = descs.drop_last();
        let d = descs.last();
        lemma_aggregate_hits_gathers(hits, init);
        lemma_documents_gathered_once(hits, init);
        let b0 = gather_descriptions(gather_chunks(hits), init);
        let b = gather_descriptions(gather_chunks(hits), descs);
        let all0 = hit_ids(hits) + init;
        assert(hit_ids(hits) + descs =~= all0.push(d));
        assert((hit_ids(hits) + descs).drop_last() =~= all0);
        lemma_doc_position(b0, d);
        lemma_first_appearances_contains(all0, d);
        let fa0 = first_appearances(all0);
        match doc_position(b0, d) {
            Some(p) => {
                assert(doc_ids(b0)[p] == d);
                assert(fa0.contains(d));
                assert(doc_ids(b) =~= doc_ids(b0));
                assert forall|i: int| 0 <= i < b.len() implies gathered_right(#[trigger] b[i], hits, descs) by {
                    assert(gathered_right(b0[i], hits, init));
                    if i != p {
                        assert(b[i] == b0[i]);
                        assert(b0[i].document_id != d);
                    }
                }
            },
            None => {
                assert(!fa0.contains(d)) by {
                    if fa0.contains(d) {
                        let k = choose|k: int| 0 <= k < fa0.len() && fa0[k] == d;
                        assert(doc_ids(b0)[k] == b0[k].document_id);
                    }
                }
                assert(doc_ids(b) =~= doc_ids(b0).push(d));
                assert(!hit_ids(hits).contains(d)) by {
                    if hit_ids(hits).contains(d) {
                        let k = choose|k: int| 0 <= k < hit_ids(hits).len() && hit_ids(hits)[k] == d;
                        assert(all0[k] == d);
                    }
                }
                lemma_hit_chunks_absent(hits, d);
                lemma_first_appearances_contains(hit_ids(hits), d);
                assert forall|i: int| 0 <= i < b.len() implies gathered_right(#[trigger] b[i], hits, descs) by {
                    if i < b0.len() {
                        assert(gathered_right(b0[i], hits, init));
                        assert(b[i] == b0[i]);
                        assert(b0[i].document_id != d);
                    }
                }
            },
        }
    }
}

/// The text of a whole document from its chunks, a blank line between them;
/// `None` for a document without chunks.
pub fn full_document_text(chunks: &Vec<String>) -> (res: Option<String>)
    ensures
        match res {
            Some(t) => chunks@.len() > 0 && t@ == join_with(ids_text_view(chunks@), "\n\n"@),
            None => chunks@.len() == 0,
        },
{
    if chunks.len() == 0 {
        return None;
    }
    let mut parts: Vec<Vec<char>> = Vec::new();
    let mut i: usize = 0;
    while i < chunks.len()
        invariant
            i <= chunks@.len(),
            seq_view(parts@) == ids_text_view(chunks@).take(i as int),
        decreases chunks.len() - i,
    {
        let c = chars_of(chunks[i].as_str());
        let ghost before = parts@;
        parts.push(c);
        proof {
            assert(seq_view(parts@) =~= seq_view(before).push(c@));
            assert(ids_text_view(chunks@).take(i + 1) =~= ids_text_view(chunks@).take(i as int).push(
                chunks@[i as int]@,
            ));
        }
        i = i + 1;
    }
    proof {
        assert(ids_text_view(chunks@).take(chunks@.len() as int) =~= ids_text_view(chunks@));
    }
    let sep = chars_of("\n\n");
    let joined = join_chars(&parts, sep.as_slice());
    Some(string_from_chars(joined.as_slice()))
}

/// A point found by its payload, as the store lists it: each field is missing
/// when the point or its payload does not carry it (or carries another type).
pub struct ScrolledPoint {
    pub point_id: Option<PointId>,
    pub text: Option<String>,
    pub module: Option<String>,
    pub block_title: Option<String>,
    pub lesson_title: Option<String>,
    pub segment_id: Option<i64>,
}

/// A course document found by its payload.
pub struct PayloadDocument {
    pub point_id: PointId,
    pub text: String,
    pub module: String,
    pub block_title: String,
    pub lesson_title: String,
    pub segment_id: i64,
}

pub open spec fn text_or_empty(o: Option<String>) -> Seq<char> {
    match o {
        Some(s) => s@,
        None => Seq::empty(),
    }
}

/// The id of a listed point; "unknown" when it has none.
pub open spec fn point_id_or_unknown(o: Option<PointId>) -> PointIdView {
    match o {
        Some(p) => p@,
        None => PointIdView::Uuid("unknown"@),
    }
}

pub open spec fn segment_or_zero(p: ScrolledPoint) -> i64 {
    match p.segment_id {
        Some(s) => s,
        None => 0,
    }
}

/// `d` is the document of point `p`: missing text fields are empty, a missing
/// segment is 0 and a missing id is "unknown".
pub open spec fn document_of(d: PayloadDocument, p: ScrolledPoint) -> bool {
    &&& d.point_id@ == point_id_or_unknown(p.point_id)
    &&& d.text@ == text_or_empty(p.text)
    &&& d.module@ == text_or_empty(p.module)
    &&& d.block_title@ == text_or_empty(p.block_title)
    &&& d.lesson_title@ == text_or_empty(p.lesson_title)
    &&& d.segment_id == segment_or_zero(p)
}

/// A sort key that orders as the segment id does.
pub open spec fn segment_key(segment_id: i64) -> u64 {
    (segment_id as int + 0x8000_0000_0000_0000) as u64
}

pub open spec fn segment_keys(points: Seq<ScrolledPoint>) -> Seq<u64> {
    points.map_values(|p: ScrolledPoint| segment_key(segment_or_zero(p)))
}

/// Segment keys order as the segment ids.
pub proof fn lemma_segment_key_order(a: i64, b: i64)
    ensures
        (segment_key(a) < segment_key(b)) == (a < b),
        (segment_key(a) == segment_key(b)) == (a == b),
{
}

fn text_or_empty_exec(o: &Option<String>) -> (res: String)
    ensures
        res@ == text_or_empty(*o),
{
    match o {
        Some(s) => s.clone(),
        None => String::new(),
    }
}

fn document_from_point(p: &ScrolledPoint) -> (d: PayloadDocument)
    ensures
        document_of(d, *p),
{
    let point_id = match &p.point_id {
        Some(id) => copy_point(id),
        None => {
            proof {
                reveal_strlit("unknown");
            }
            PointId::Uuid(copy_str("unknown"))
        },
    };
    let segment_id = match p.segment_id {
        Some(s) => s,
        None => 0,
    };
    PayloadDocument {
        point_id,
        text: text_or_empty_exec(&p.text),
        module: text_or_empty_exec(&p.module),
        block_title: text_or_empty_exec(&p.block_title),
        lesson_title: text_or_empty_exec(&p.lesson_title),
        segment_id,
    }
}

/// The documents of the points found by a payload search over all collections,
/// ordered by segment id; points with the same segment keep the order in which
/// they were listed (a stable sort).
pub fn payload_documents(points: &Vec<ScrolledPoint>) -> (docs: Vec<PayloadDocument>)
    ensures
        docs@.len() == points@.len(),
        exists|order: Seq<usize>|
            #![trigger stably_sorted(segment_keys(points@), order, points@.len() as int)]
            order.len() == points@.len() && stably_sorted(segment_keys(points@), order, points@.len() as int)
                && forall|i: int| 0 <= i < docs@.len() ==> document_of(#[trigger] docs@[i], points@[order[i] as int]),
{
    let mut keys: Vec<u64> = Vec::new();
    let mut k: usize = 0;
    while k < points.len()
        invariant
            k <= points@.len(),
            keys@.len() == k,
            forall|j: int| 0 <= j < k ==> keys@[j] == segment_keys(points@)[j],
        decreases points.len() - k,
    {
        let seg: i64 = match points[k].segment_id {
            Some(s) => s,
            None => 0,
        };
        let key: u64 = ((seg as i128) + 0x8000_0000_0000_0000i128) as u64;
        keys.push(key);
        k = k + 1;
    }
    assert(keys@ =~= segment_keys(points@));
    let order = stable_order(&keys);
    let mut docs: Vec<PayloadDocument> = Vec::new();
    let mut i: usize = 0;
    while i < order.len()
        invariant
            i <= order@.len(),
            order@.len() == points@.len(),
            keys@ == segment_keys(points@),
            stably_sorted(keys@, order@, points@.len() as int),
            docs@.len() == i,
            forall|j: int| 0 <= j < i ==> document_of(#[trigger] docs@[j], points@[order@[j] as int]),
        decreases order.len() - i,
    {
        let d = document_from_point(&points[order[i]]);
        docs.push(d);
        i = i + 1;
    }
    docs
}

/// The payload search that follows a similarity search over the course: by the
/// key "lesson_title", with the lesson title of the first hit; none when there
/// was no hit (`lesson_titles` lists the hits' lesson titles in rank order).
pub fn payload_key_lookup(lesson_titles: &Vec<String>) -> (res: Option<(String, String)>)
    ensures
        match res {
            None => lesson_titles@.len() == 0,
            Some((key, value)) => lesson_titles@.len() > 0 && key@ == "lesson_title"@ && value@
                == lesson_titles@[0]@,
        },
{
    if lesson_titles.len() == 0 {
        None
    } else {
        Some((copy_str("lesson_title"), lesson_titles[0].clone()))
    }
}

} // verus!
