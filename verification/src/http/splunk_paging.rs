//! Reading the whole catalog of a Splunk server, page by page.
use crate::budget::{array_bytes, smaller};
use crate::http::common::{byte_limit, cursor_result, lemma_cursor_round_trip, list_in, rows_result};
use crate::http::splunk::{
    catalog_finished, catalog_received, catalog_start, lemma_nothing_is_passed_over, matching,
    part_size, stated_total, taken, CatalogModel,
};
use crate::model::{
    CatalogQuery, ConnectionProfile, ConnectorContext, EntityModel, ErrorModel, PageModel,
};
use crate::text::optional_text;
use crate::value::JsonModel;
use vstd::prelude::*;

verus! {

/// Whether an answer is what a server with a listing owes to a request for so many entries from a
/// place on: those that it has there, and how many it has in all.
pub open spec fn is_owed(answer: JsonModel, listing: Seq<JsonModel>, offset: int, count: int) -> bool {
    &&& list_in(answer, "entry"@) == Some(
        listing.subrange(offset, smaller(offset + count, listing.len() as int)),
    )
    &&& stated_total(answer) == Some(listing.len() as int)
}

/// Whether a server, by its answers to an offset and a count, keeps to a listing.
pub open spec fn keeps_to(server: spec_fn(int, int) -> JsonModel, listing: Seq<JsonModel>) -> bool {
    forall|offset: int, count: int|
        0 <= offset <= listing.len() && 0 < count ==> is_owed(
            #[trigger] server(offset, count),
            listing,
            offset,
            count,
        )
}

/// Whether a walk through the catalog asks for nothing more.
pub open spec fn is_over(state: CatalogModel) -> bool {
    state.finished || state.found.len() >= state.limit
}

/// A walk through the catalog behind so many answers, or behind fewer where it is over before.
pub open spec fn walked(
    state: CatalogModel,
    server: spec_fn(int, int) -> JsonModel,
    answers: nat,
) -> Result<CatalogModel, ErrorModel>
    decreases answers,
{
    if answers == 0 || is_over(state) {
        Ok(state)
    } else {
        match catalog_received(state, server(state.offset, part_size(state))) {
            Err(error) => Err(error),
            Ok(next) => walked(next, server, (answers - 1) as nat),
        }
    }
}

/// The encoded sizes of entities.
pub open spec fn sizes_of(found: Seq<EntityModel>, size: spec_fn(EntityModel) -> u64) -> Seq<u64> {
    Seq::new(found.len(), |i: int| size(found[i]))
}

/// Whether the walk of a query is over within so many answers.
#[verifier::opaque]
pub open spec fn is_read_within(
    context: ConnectorContext,
    profile: ConnectionProfile,
    query: CatalogQuery,
    server: spec_fn(int, int) -> JsonModel,
    answers: nat,
) -> bool {
    match catalog_start(context, profile, query) {
        Err(_) => false,
        Ok(start) => walked(start, server, answers) matches Ok(state) && is_over(state),
    }
}

/// The page that a query gets from a server within so many answers.
#[verifier::opaque]
pub open spec fn page_within(
    context: ConnectorContext,
    profile: ConnectionProfile,
    query: CatalogQuery,
    server: spec_fn(int, int) -> JsonModel,
    size: spec_fn(EntityModel) -> u64,
    answers: nat,
) -> Result<PageModel, ErrorModel> {
    match catalog_start(context, profile, query) {
        Err(error) => Err(error),
        Ok(start) => match walked(start, server, answers) {
            Err(error) => Err(error),
            Ok(state) => catalog_finished(
                context,
                profile,
                query,
                state,
                sizes_of(state.found, size),
            ),
        },
    }
}

/// The entities of some pages, one page behind the other.
pub open spec fn shown_on(pages: Seq<PageModel>) -> Seq<EntityModel>
    decreases pages.len(),
{
    if pages.len() == 0 {
        Seq::empty()
    } else {
        shown_on(pages.drop_last()) + pages.last().entities
    }
}

/// The entities of one page, where each page but the last has as many as the limit admits.
pub open spec fn page_at(all: Seq<EntityModel>, limit: int, page: int) -> Seq<EntityModel> {
    let start = smaller(page * limit, all.len() as int);
    let end = smaller(page * limit + limit, all.len() as int);
    all.subrange(start, end)
}

/// What matches of two lists of entries matches of each.
proof fn lemma_matching_joins(a: Seq<JsonModel>, b: Seq<JsonModel>, pattern: Option<Seq<char>>)
    ensures
        matching(a + b, pattern) == matching(a, pattern) + matching(b, pattern),
    decreases a.len(),
{
    if a.len() == 0 {
        assert(a + b =~= b);
        assert(matching(a, pattern) + matching(b, pattern) =~= matching(b, pattern));
    } else {
        let rest = a.subrange(1, a.len() as int);
        lemma_matching_joins(rest, b, pattern);
        assert((a + b).subrange(1, (a + b).len() as int) =~= rest + b);
        assert((a + b)[0] == a[0]);
        assert(matching(a + b, pattern) =~= matching(a, pattern) + matching(b, pattern));
    }
}

/// What matches up to a place, and from there to another one.
proof fn lemma_matching_parts(
    listing: Seq<JsonModel>,
    from: int,
    place: int,
    to: int,
    pattern: Option<Seq<char>>,
)
    requires
        0 <= from <= place <= to <= listing.len(),
    ensures
        matching(listing.subrange(from, to), pattern) == matching(
            listing.subrange(from, place),
            pattern,
        ) + matching(listing.subrange(place, to), pattern),
{
    assert(listing.subrange(from, to) =~= listing.subrange(from, place) + listing.subrange(
        place,
        to,
    ));
    lemma_matching_joins(listing.subrange(from, place), listing.subrange(place, to), pattern);
}

/// A walk through a listing ends within as many answers as there are entries left, and one: it has
/// found what matches of the entries that it passed over, which are all that are left unless it
/// found as many as its limit admits. It has a next cursor, to the place behind these, exactly
/// where it stopped before the end.
proof fn lemma_walk(
    state: CatalogModel,
    listing: Seq<JsonModel>,
    server: spec_fn(int, int) -> JsonModel,
    answers: nat,
)
    requires
        keeps_to(server, listing),
        listing.len() <= usize::MAX,
        0 <= state.offset <= listing.len(),
        state.found.len() < state.limit,
        state.next_cursor is None,
        !state.finished,
        answers > listing.len() - state.offset,
    ensures
        walked(state, server, answers) matches Ok(end) && {
            &&& is_over(end)
            &&& state.offset <= end.offset <= listing.len()
            &&& end.found == state.found + matching(
                listing.subrange(state.offset, end.offset),
                state.pattern,
            )
            &&& end.found.len() <= state.limit
            &&& end.found.len() < state.limit ==> end.offset == listing.len()
            &&& end.next_cursor is Some <==> end.offset < listing.len()
            &&& end.next_cursor matches Some(cursor) ==> cursor_result(Some(cursor)) == Ok::<
                int,
                ErrorModel,
            >(end.offset)
        },
    decreases listing.len() - state.offset,
{
    let count = part_size(state);
    let answer = server(state.offset, count);
    assert(is_owed(answer, listing, state.offset, count));
    let entries = listing.subrange(
        state.offset,
        smaller(state.offset + count, listing.len() as int),
    );
    if state.offset == listing.len() {
        assert(listing.subrange(state.offset, state.offset) =~= Seq::<JsonModel>::empty());
        assert(state.found + Seq::<EntityModel>::empty() =~= state.found);
        let next = CatalogModel { finished: true, ..state };
        assert(catalog_received(state, answer) == Ok::<CatalogModel, ErrorModel>(next));
        assert(walked(next, server, (answers - 1) as nat) == Ok::<CatalogModel, ErrorModel>(next));
    } else {
        let room = (state.limit - state.found.len()) as nat;
        let (more, consumed) = taken(entries, state.pattern, room);
        lemma_nothing_is_passed_over(entries, state.pattern, room);
        let offset = state.offset + consumed;
        assert(consumed >= 1);
        assert(entries.subrange(0, consumed as int) =~= listing.subrange(state.offset, offset));
        lemma_cursor_round_trip(offset as usize);
        let next = catalog_received(state, answer)->Ok_0;
        assert(catalog_received(state, answer) is Ok);
        assert(next.offset == offset && next.found == state.found + more);
        if is_over(next) {
            assert(walked(next, server, (answers - 1) as nat) == Ok::<CatalogModel, ErrorModel>(
                next,
            ));
        } else {
            lemma_walk(next, listing, server, (answers - 1) as nat);
            let end = walked(next, server, (answers - 1) as nat)->Ok_0;
            lemma_matching_parts(listing, state.offset, offset, end.offset, state.pattern);
            assert(end.found =~= state.found + matching(
                listing.subrange(state.offset, end.offset),
                state.pattern,
            ));
        }
    }
}

/// One page, read from a place of a listing on.
proof fn lemma_page(
    context: ConnectorContext,
    profile: ConnectionProfile,
    query: CatalogQuery,
    listing: Seq<JsonModel>,
    server: spec_fn(int, int) -> JsonModel,
    size: spec_fn(EntityModel) -> u64,
    offset: int,
    limit: int,
    page: int,
) -> (end: int)
    requires
        keeps_to(server, listing),
        listing.len() <= usize::MAX,
        rows_result(context, profile, query.limit) == Ok::<int, ErrorModel>(limit),
        cursor_result(optional_text(query.cursor)) == Ok::<int, ErrorModel>(offset),
        0 <= offset <= listing.len(),
        page >= 0,
        matching(listing.subrange(0, offset), optional_text(query.pattern)).len() == page * limit,
        array_bytes(
            sizes_of(
                page_at(matching(listing, optional_text(query.pattern)), limit, page),
                size,
            ),
        ) <= byte_limit(context, profile),
    ensures
        offset <= end <= listing.len(),
        is_read_within(context, profile, query, server, listing.len() + 1),
        ({
            let pattern = optional_text(query.pattern);
            let all = matching(listing, pattern);
            page_within(context, profile, query, server, size, listing.len() + 1) matches Ok(shown)
                && {
                &&& shown.entities == page_at(all, limit, page)
                &&& shown.entities == matching(listing.subrange(offset, end), pattern)
                &&& page * limit + shown.entities.len() <= all.len()
                &&& shown.next_cursor is None ==> page * limit + shown.entities.len() == all.len()
                &&& shown.next_cursor matches Some(cursor) ==> {
                    &&& shown.entities.len() == limit
                    &&& cursor_result(Some(cursor)) == Ok::<int, ErrorModel>(end)
                }
            }
        }),
{
    reveal(is_read_within);
    reveal(page_within);
    let pattern = optional_text(query.pattern);
    let all = matching(listing, pattern);
    let start = catalog_start(context, profile, query)->Ok_0;
    lemma_walk(start, listing, server, listing.len() + 1);
    let state = walked(start, server, listing.len() + 1)->Ok_0;
    let end = state.offset;
    let here = matching(listing.subrange(offset, end), pattern);
    assert(state.found =~= here);
    let before = matching(listing.subrange(0, offset), pattern);
    let behind = matching(listing.subrange(end, listing.len() as int), pattern);
    assert(listing.subrange(0, listing.len() as int) =~= listing);
    lemma_matching_parts(listing, 0, offset, listing.len() as int, pattern);
    lemma_matching_parts(listing, offset, end, listing.len() as int, pattern);
    assert(all =~= before + here + behind);
    if end == listing.len() {
        assert(listing.subrange(end, end) =~= Seq::<JsonModel>::empty());
    }
    assert(page_at(all, limit, page) =~= here);
    assert(sizes_of(here, size).subrange(0, here.len() as int) =~= sizes_of(here, size));
    assert(here.subrange(0, here.len() as int) =~= here);
    end
}

/// Whether queries read the catalog page by page: all with one pattern and one limit, the first
/// without a cursor, and each further one with the next cursor of the page before it.
pub open spec fn is_reading_on(queries: Seq<CatalogQuery>, pages: Seq<PageModel>) -> bool {
    &&& 0 < queries.len() == pages.len()
    &&& forall|k: int|
        0 <= k < queries.len() ==> (#[trigger] queries[k]).limit == queries[0].limit
            && optional_text(queries[k].pattern) == optional_text(queries[0].pattern)
    &&& queries[0].cursor is None
    &&& forall|k: int|
        0 < k < queries.len() ==> optional_text((#[trigger] queries[k]).cursor) is Some
            && optional_text(queries[k].cursor) == pages[k - 1].next_cursor
}

/// The pages that queries get from a server.
pub open spec fn pages_of(
    context: ConnectorContext,
    profile: ConnectionProfile,
    queries: Seq<CatalogQuery>,
    server: spec_fn(int, int) -> JsonModel,
    size: spec_fn(EntityModel) -> u64,
    answers: nat,
) -> Seq<PageModel> {
    Seq::new(
        queries.len(),
        |k: int| page_within(context, profile, queries[k], server, size, answers)->Ok_0,
    )
}

/// The pages before one, and the place of the listing at which that one begins.
proof fn lemma_pages_before(
    context: ConnectorContext,
    profile: ConnectionProfile,
    queries: Seq<CatalogQuery>,
    listing: Seq<JsonModel>,
    server: spec_fn(int, int) -> JsonModel,
    size: spec_fn(EntityModel) -> u64,
    limit: int,
    page: int,
) -> (place: int)
    requires
        keeps_to(server, listing),
        listing.len() <= usize::MAX,
        rows_result(context, profile, queries[0].limit) == Ok::<int, ErrorModel>(limit),
        is_reading_on(
            queries,
            pages_of(context, profile, queries, server, size, listing.len() + 1),
        ),
        forall|k: int|
            0 <= k < queries.len() ==> array_bytes(
                sizes_of(
                    #[trigger] page_at(
                        matching(listing, optional_text(queries[0].pattern)),
                        limit,
                        k,
                    ),
                    size,
                ),
            ) <= byte_limit(context, profile),
        0 <= page < queries.len(),
    ensures
        0 <= place <= listing.len(),
        cursor_result(optional_text(queries[page].cursor)) == Ok::<int, ErrorModel>(place),
        ({
            let pattern = optional_text(queries[0].pattern);
            let all = matching(listing, pattern);
            let pages = pages_of(context, profile, queries, server, size, listing.len() + 1);
            &&& matching(listing.subrange(0, place), pattern).len() == page * limit
            &&& page * limit <= all.len()
            &&& shown_on(pages.subrange(0, page)) == all.subrange(0, page * limit)
            &&& forall|k: int|
                0 <= k < page ==> is_read_within(
                    context,
                    profile,
                    #[trigger] queries[k],
                    server,
                    listing.len() + 1,
                ) && page_within(
                    context,
                    profile,
                    queries[k],
                    server,
                    size,
                    listing.len() + 1,
                ) is Ok && pages[k].entities.len() <= limit
        }),
    decreases page,
{
    let pattern = optional_text(queries[0].pattern);
    let all = matching(listing, pattern);
    let pages = pages_of(context, profile, queries, server, size, listing.len() + 1);
    assert(optional_text(queries[page].pattern) == pattern);
    if page == 0 {
        assert(listing.subrange(0, 0) =~= Seq::<JsonModel>::empty());
        assert(pages.subrange(0, 0) =~= Seq::<PageModel>::empty());
        assert(all.subrange(0, 0) =~= Seq::<EntityModel>::empty());
        assert(page * limit == 0) by (nonlinear_arith)
            requires
                page == 0,
        ;
        0
    } else {
        let before = page - 1;
        let offset = lemma_pages_before(
            context,
            profile,
            queries,
            listing,
            server,
            size,
            limit,
            before,
        );
        let query = queries[before];
        assert(query.limit == queries[0].limit && optional_text(query.pattern) == pattern);
        assert(array_bytes(sizes_of(page_at(all, limit, before), size)) <= byte_limit(
            context,
            profile,
        ));
        let end = lemma_page(
            context,
            profile,
            query,
            listing,
            server,
            size,
            offset,
            limit,
            before,
        );
        assert(pages[before].next_cursor == optional_text(queries[page].cursor));
        assert(page * limit == before * limit + limit) by (nonlinear_arith)
            requires
                page == before + 1,
        ;
        lemma_matching_parts(listing, 0, offset, end, pattern);
        assert(pages.subrange(0, page).drop_last() =~= pages.subrange(0, before));
        assert(pages.subrange(0, page).last() == pages[before]);
        assert(pages[before].entities.len() == limit);
        assert(before * limit + limit <= all.len());
        assert(page_at(all, limit, before) == all.subrange(before * limit, page * limit));
        assert(all.subrange(0, before * limit) + page_at(all, limit, before) =~= all.subrange(
            0,
            page * limit,
        ));
        end
    }
}

/// Whoever reads the catalog page by page, from the first page and on with each next cursor, gets
/// every index whose name holds the pattern exactly once, in the order of the server, however many
/// answers a page takes. No page has more entities than the limit of the query, of the context and
/// of the policy admit, and reading comes to an end: there are no more pages than fill up with what
/// matches, and one. This holds of a server whose listing stays as it is and that answers with the
/// entries that it is asked for and with their number, where each page fits into the limit of bytes.
pub proof fn lemma_catalog_is_read_once(
    context: ConnectorContext,
    profile: ConnectionProfile,
    queries: Seq<CatalogQuery>,
    listing: Seq<JsonModel>,
    server: spec_fn(int, int) -> JsonModel,
    size: spec_fn(EntityModel) -> u64,
    limit: int,
)
    requires
        keeps_to(server, listing),
        listing.len() <= usize::MAX,
        limit > 0,
        limit == smaller(
            smaller(queries[0].limit as int, context.max_rows as int),
            profile.policy.max_rows as int,
        ),
        is_reading_on(
            queries,
            pages_of(context, profile, queries, server, size, listing.len() + 1),
        ),
        forall|k: int|
            0 <= k < queries.len() ==> array_bytes(
                sizes_of(
                    #[trigger] page_at(
                        matching(listing, optional_text(queries[0].pattern)),
                        limit,
                        k,
                    ),
                    size,
                ),
            ) <= byte_limit(context, profile),
    ensures
        ({
            let all = matching(listing, optional_text(queries[0].pattern));
            let pages = pages_of(context, profile, queries, server, size, listing.len() + 1);
            &&& forall|k: int|
                0 <= k < queries.len() ==> is_read_within(
                    context,
                    profile,
                    #[trigger] queries[k],
                    server,
                    listing.len() + 1,
                ) && page_within(
                    context,
                    profile,
                    queries[k],
                    server,
                    size,
                    listing.len() + 1,
                ) is Ok && pages[k].entities.len() <= limit
            &&& shown_on(pages) == all.subrange(0, shown_on(pages).len() as int)
            &&& pages.last().next_cursor is None ==> shown_on(pages) == all
            &&& (queries.len() - 1) * limit <= all.len()
        }),
{
    let pattern = optional_text(queries[0].pattern);
    let all = matching(listing, pattern);
    let pages = pages_of(context, profile, queries, server, size, listing.len() + 1);
    let last = queries.len() - 1;
    let offset = lemma_pages_before(
        context,
        profile,
        queries,
        listing,
        server,
        size,
        limit,
        last,
    );
    let query = queries[last];
    assert(query.limit == queries[0].limit && optional_text(query.pattern) == pattern);
    assert(array_bytes(sizes_of(page_at(all, limit, last), size)) <= byte_limit(context, profile));
    let end = lemma_page(
        context,
        profile,
        query,
        listing,
        server,
        size,
        offset,
        limit,
        last,
    );
    assert(pages.drop_last() =~= pages.subrange(0, last));
    assert(pages.last() == pages[last]);
    let shown = pages[last].entities;
    assert(all.subrange(0, last * limit) + shown =~= all.subrange(
        0,
        last * limit + shown.len(),
    ));
    if pages.last().next_cursor is None {
        assert(all.subrange(0, all.len() as int) =~= all);
    }
}

} // verus!
