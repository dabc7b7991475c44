//! The link service: creation orchestrates key generation, token minting and
//! persistence; redirection orchestrates lookup and the click increment;
//! statistics retrieval orchestrates lookup and the token check.

use vstd::prelude::*;
use vstd::seq_lib::*;
use crate::errors::{LinkError, string_result_view};
use crate::keygen::{
    ProbeCall, TOKEN_LENGTH, generate_key, generate_key_post, is_alphanumeric_seq, is_valid_key,
    rand_string,
};
use crate::store::{LinkData, LinkStore, ShortLink, clicked};

verus! {

/// How many random draws creation grants the key generator.
pub const CREATE_ATTEMPTS: usize = 3;

/// What a successful creation hands back: the short URL itself, and the URL
/// under which the link's statistics answer to the minted token.
pub struct CreateShortLinkResponse {
    pub short_url: String,
    pub stats_url: String,
}

/// The short URL derived from a scheme, a hostname and a short key.
pub open spec fn short_url_of(scheme: Seq<char>, hostname: Seq<char>, key: Seq<char>) -> Seq<
    char,
> {
    scheme + "://"@ + hostname + "/"@ + key
}

/// The statistics URL derived from a short URL and the link's secret token.
pub open spec fn stats_url_of(short_url: Seq<char>, token: Seq<char>) -> Seq<char> {
    short_url + "/info?token="@ + token
}

/// One creation, spelled out: the short key `key`, drawn by the key
/// generator within the creation's attempt bound and never seen in the store
/// before, now maps the submitted `url` with the fresh `token` and zero
/// clicks, and the two returned URLs are derived exactly from `key` and
/// `token`.
pub open spec fn created_link(
    pre: Map<Seq<char>, LinkData>,
    post: Map<Seq<char>, LinkData>,
    pre_log: Seq<ProbeCall>,
    post_log: Seq<ProbeCall>,
    id: int,
    key: Seq<char>,
    token: Seq<char>,
    url: Seq<char>,
    hostname: Seq<char>,
    scheme: Seq<char>,
    short_url: Seq<char>,
    stats_url: Seq<char>,
) -> bool {
    &&& is_valid_key(key)
    &&& generate_key_post(pre_log, post_log, CREATE_ATTEMPTS as nat, Ok(key))
    &&& token.len() == TOKEN_LENGTH && is_alphanumeric_seq(token)
    &&& !pre.contains_key(key)
    &&& post == pre.insert(key, (LinkData { id, url, token, clicks: 0 }))
    &&& short_url == short_url_of(scheme, hostname, key)
    &&& stats_url == stats_url_of(short_url, token)
}

/// What a successful creation guarantees: some fresh key and token were
/// drawn, persisted and woven into the returned URLs.
pub open spec fn create_ok_post(
    pre: Map<Seq<char>, LinkData>,
    post: Map<Seq<char>, LinkData>,
    pre_log: Seq<ProbeCall>,
    post_log: Seq<ProbeCall>,
    url: Seq<char>,
    hostname: Seq<char>,
    scheme: Seq<char>,
    short_url: Seq<char>,
    stats_url: Seq<char>,
) -> bool {
    exists|key: Seq<char>, token: Seq<char>, id: int|
        created_link(
            pre,
            post,
            pre_log,
            post_log,
            id,
            key,
            token,
            url,
            hostname,
            scheme,
            short_url,
            stats_url,
        )
}

/// Create a new short link for `url`: draw a unique short key (at most
/// `CREATE_ATTEMPTS` probes), mint a fresh secret token, persist the record
/// with zero clicks, and derive the short and statistics URLs. On any
/// failure the store's links are left untouched.
pub fn create_link(
    store: &mut LinkStore,
    url: &String,
    hostname: &String,
    scheme: &String,
) -> (r: Result<CreateShortLinkResponse, LinkError>)
    ensures
        match r {
            Ok(resp) => create_ok_post(
                old(store).links(),
                final(store).links(),
                old(store).probe_log(),
                final(store).probe_log(),
                url@,
                hostname@,
                scheme@,
                resp.short_url@,
                resp.stats_url@,
            ),
            Err(e) => final(store).links() == old(store).links() && match e {
                LinkError::GenerationExhausted => generate_key_post(
                    old(store).probe_log(),
                    final(store).probe_log(),
                    CREATE_ATTEMPTS as nat,
                    Err(LinkError::GenerationExhausted),
                ),
                LinkError::StoreError => generate_key_post(
                    old(store).probe_log(),
                    final(store).probe_log(),
                    CREATE_ATTEMPTS as nat,
                    Err(LinkError::StoreError),
                ) || (exists|key: Seq<char>|
                    generate_key_post(
                        old(store).probe_log(),
                        final(store).probe_log(),
                        CREATE_ATTEMPTS as nat,
                        Ok(key),
                    ) && old(store).links().contains_key(key)),
                _ => false,
            },
        },
{
    let ghost pre_links = store.links();
    let ghost pre_log = store.probe_log();
    let short_key = match generate_key(store, CREATE_ATTEMPTS) {
        Ok(k) => k,
        Err(e) => {
            return Err(e);
        },
    };
    proof {
        let fresh = store.probe_log().skip(pre_log.len() as int);
        assert(fresh.last() == fresh[fresh.len() - 1]);
        assert(is_valid_key(short_key@));
    }
    let token = rand_string(TOKEN_LENGTH);
    let rec = match store.insert(&short_key, url, &token) {
        Ok(rec) => rec,
        Err(_) => {
            return Err(LinkError::StoreError);
        },
    };
    let mut short_url = scheme.clone();
    short_url.append("://");
    short_url.append(hostname.as_str());
    short_url.append("/");
    short_url.append(short_key.as_str());
    let mut stats_url = short_url.clone();
    stats_url.append("/info?token=");
    stats_url.append(token.as_str());
    proof {
        assert(created_link(
            pre_links,
            store.links(),
            pre_log,
            store.probe_log(),
            rec@.id,
            short_key@,
            token@,
            url@,
            hostname@,
            scheme@,
            short_url@,
            stats_url@,
        ));
    }
    Ok(CreateShortLinkResponse { short_url, stats_url })
}

/// What redirection returns: the stored destination URL, `NotFound` for an
/// unknown key, or a store error if the click could not be counted.
pub open spec fn redirect_model(links: Map<Seq<char>, LinkData>, key: Seq<char>) -> Result<
    Seq<char>,
    LinkError,
> {
    if !links.contains_key(key) {
        Err(LinkError::NotFound)
    } else if links[key].clicks >= i32::MAX {
        Err(LinkError::StoreError)
    } else {
        Ok(links[key].url)
    }
}

/// What redirection leaves in the store: one more click on the link it
/// resolved, nothing otherwise.
pub open spec fn redirect_state(links: Map<Seq<char>, LinkData>, key: Seq<char>) -> Map<
    Seq<char>,
    LinkData,
> {
    if links.contains_key(key) && links[key].clicks < i32::MAX {
        links.insert(key, clicked(links[key]))
    } else {
        links
    }
}

/// Resolve `short_key` for a temporary redirect: look the record up, count
/// the click, and return the stored destination URL. The increment is the
/// only mutation; its failure surfaces as a store error even though the
/// lookup itself succeeded.
pub fn redirect(store: &mut LinkStore, short_key: &String) -> (r: Result<String, LinkError>)
    ensures
        final(store).links() == redirect_state(old(store).links(), short_key@),
        final(store).probe_log() == old(store).probe_log(),
        string_result_view(r) == redirect_model(old(store).links(), short_key@),
{
    let link = match store.get(short_key) {
        Ok(link) => link,
        Err(e) => {
            return Err(e);
        },
    };
    match store.increment_clicks(short_key) {
        Ok(_) => Ok(link.url),
        Err(e) => Err(e),
    }
}

/// The view of an optional token.
pub open spec fn opt_string_view(t: Option<String>) -> Option<Seq<char>> {
    match t {
        Some(s) => Some(s@),
        None => None,
    }
}

/// What a statistics request returns: the full record for the exact stored
/// token; `NotFound` for an unknown key or a missing token, the two made
/// deliberately indistinguishable so existence leaks to no unauthenticated
/// probe; `Unauthorized` for a token that does not match.
pub open spec fn stats_model(
    links: Map<Seq<char>, LinkData>,
    key: Seq<char>,
    token: Option<Seq<char>>,
) -> Result<LinkData, LinkError> {
    if !links.contains_key(key) {
        Err(LinkError::NotFound)
    } else {
        match token {
            None => Err(LinkError::NotFound),
            Some(t) => if t != links[key].token {
                Err(LinkError::Unauthorized)
            } else {
                Ok(links[key])
            },
        }
    }
}

/// Look `short_key` up and, if `token` matches the stored secret exactly,
/// return the full record, click count included. Reads only.
pub fn get_stats(store: &LinkStore, short_key: &String, token: &Option<String>) -> (r: Result<
    ShortLink,
    LinkError,
>)
    ensures
        match r {
            Ok(rec) => stats_model(store.links(), short_key@, opt_string_view(*token)) == Ok::<
                LinkData,
                LinkError,
            >(rec@) && rec.short_key@ == short_key@,
            Err(e) => stats_model(store.links(), short_key@, opt_string_view(*token)) == Err::<
                LinkData,
                LinkError,
            >(e),
        },
{
    let link = match store.get(short_key) {
        Ok(link) => link,
        Err(e) => {
            return Err(e);
        },
    };
    match token {
        None => Err(LinkError::NotFound),
        Some(t) => {
            if *t != link.token {
                Err(LinkError::Unauthorized)
            } else {
                Ok(link)
            }
        },
    }
}

/// One service operation against the store, as the model sees it: a creation
/// carries the key, token and identity the store would assign.
#[allow(inconsistent_fields)]
pub enum LinkOp {
    Create { key: Seq<char>, url: Seq<char>, token: Seq<char>, id: int },
    Redirect { key: Seq<char> },
    GetStats { key: Seq<char>, token: Option<Seq<char>> },
}

/// What one operation leaves in the store: a creation claims its key only if
/// the key is still unclaimed, a redirect counts its click, a statistics
/// read changes nothing.
pub open spec fn apply_op(links: Map<Seq<char>, LinkData>, op: LinkOp) -> Map<
    Seq<char>,
    LinkData,
> {
    match op {
        LinkOp::Create { key, url, token, id } => if !links.contains_key(key) {
            links.insert(key, (LinkData { id, url, token, clicks: 0 }))
        } else {
            links
        },
        LinkOp::Redirect { key } => redirect_state(links, key),
        LinkOp::GetStats { .. } => links,
    }
}

/// The store after `ops` ran in order, starting from `links`.
pub open spec fn run_ops(links: Map<Seq<char>, LinkData>, ops: Seq<LinkOp>) -> Map<
    Seq<char>,
    LinkData,
>
    decreases ops.len(),
{
    if ops.len() == 0 {
        links
    } else {
        run_ops(apply_op(links, ops[0]), ops.skip(1))
    }
}

/// How many of `ops`, run in order from `links`, are redirects of `key` that
/// succeed.
pub open spec fn successful_redirects(
    links: Map<Seq<char>, LinkData>,
    ops: Seq<LinkOp>,
    key: Seq<char>,
) -> nat
    decreases ops.len(),
{
    if ops.len() == 0 {
        0
    } else {
        let hit: nat = if ops[0] == (LinkOp::Redirect { key }) && redirect_model(links, key) is Ok {
            1
        } else {
            0
        };
        hit + successful_redirects(apply_op(links, ops[0]), ops.skip(1), key)
    }
}

/// Law: once a link exists, any sequence of operations leaves it existing,
/// grows its clicks by exactly one per successful redirect of its key, and
/// never changes its destination URL or its token.
pub proof fn lemma_clicks_count_successful_redirects(
    links: Map<Seq<char>, LinkData>,
    ops: Seq<LinkOp>,
    key: Seq<char>,
)
    requires
        links.contains_key(key),
    ensures
        ({
            let post = run_ops(links, ops);
            &&& post.contains_key(key)
            &&& post[key].clicks == links[key].clicks + successful_redirects(links, ops, key)
            &&& post[key].url == links[key].url
            &&& post[key].token == links[key].token
        }),
    decreases ops.len(),
{
    if ops.len() > 0 {
        let op = ops[0];
        let next = apply_op(links, op);
        assert(next.contains_key(key));
        match op {
            LinkOp::Create { key: k, url, token, id } => {
                assert(next[key] == links[key]);
                assert(op != (LinkOp::Redirect { key }));
            },
            LinkOp::Redirect { key: k } => {
                if k == key && links[key].clicks < i32::MAX {
                    assert(next[key] == clicked(links[key]));
                    assert(op == (LinkOp::Redirect { key }));
                    assert(redirect_model(links, key) is Ok);
                } else {
                    assert(next[key] == links[key]);
                }
            },
            LinkOp::GetStats { key: k, token } => {
                assert(next[key] == links[key]);
                assert(op != (LinkOp::Redirect { key }));
            },
        }
        lemma_clicks_count_successful_redirects(next, ops.skip(1), key);
    }
}

/// Law: statistics read with the exact stored token return the full record,
/// and on a link created with zero clicks its click count equals the number
/// of successful redirects of its key since.
pub proof fn lemma_stats_counts_redirects(
    links: Map<Seq<char>, LinkData>,
    ops: Seq<LinkOp>,
    key: Seq<char>,
)
    requires
        links.contains_key(key),
        links[key].clicks == 0,
    ensures
        ({
            let post = run_ops(links, ops);
            &&& stats_model(post, key, Some(post[key].token)) == Ok::<LinkData, LinkError>(
                post[key],
            )
            &&& post[key].clicks == successful_redirects(links, ops, key)
        }),
{
    lemma_clicks_count_successful_redirects(links, ops, key);
}

/// Law: the short URL a successful creation returns resolves, via redirect,
/// to exactly the destination URL that was submitted.
pub proof fn lemma_create_then_redirect(
    pre: Map<Seq<char>, LinkData>,
    post: Map<Seq<char>, LinkData>,
    pre_log: Seq<ProbeCall>,
    post_log: Seq<ProbeCall>,
    url: Seq<char>,
    hostname: Seq<char>,
    scheme: Seq<char>,
    short_url: Seq<char>,
    stats_url: Seq<char>,
)
    requires
        create_ok_post(pre, post, pre_log, post_log, url, hostname, scheme, short_url, stats_url),
    ensures
        exists|key: Seq<char>|
            #[trigger] post.contains_key(key) && short_url == short_url_of(scheme, hostname, key)
                && redirect_model(post, key) == Ok::<Seq<char>, LinkError>(url),
{
    let (key, token, id) = choose|key: Seq<char>, token: Seq<char>, id: int|
        created_link(
            pre,
            post,
            pre_log,
            post_log,
            id,
            key,
            token,
            url,
            hostname,
            scheme,
            short_url,
            stats_url,
        );
    assert(post.contains_key(key));
    assert(redirect_model(post, key) == Ok::<Seq<char>, LinkError>(url));
}

/// Law: the statistics URL a successful creation returns embeds exactly the
/// token under which the new link's statistics answer, and the fresh record
/// starts with zero clicks on the submitted destination URL.
pub proof fn lemma_create_grants_stats_access(
    pre: Map<Seq<char>, LinkData>,
    post: Map<Seq<char>, LinkData>,
    pre_log: Seq<ProbeCall>,
    post_log: Seq<ProbeCall>,
    url: Seq<char>,
    hostname: Seq<char>,
    scheme: Seq<char>,
    short_url: Seq<char>,
    stats_url: Seq<char>,
)
    requires
        create_ok_post(pre, post, pre_log, post_log, url, hostname, scheme, short_url, stats_url),
    ensures
        exists|key: Seq<char>, token: Seq<char>|
            {
                &&& stats_url == stats_url_of(short_url_of(scheme, hostname, key), token)
                &&& #[trigger] stats_model(post, key, Some(token)) == Ok::<LinkData, LinkError>(
                    post[key],
                )
                &&& post[key].clicks == 0
                &&& post[key].url == url
            },
{
    let (key, token, id) = choose|key: Seq<char>, token: Seq<char>, id: int|
        created_link(
            pre,
            post,
            pre_log,
            post_log,
            id,
            key,
            token,
            url,
            hostname,
            scheme,
            short_url,
            stats_url,
        );
    assert(stats_model(post, key, Some(token)) == Ok::<LinkData, LinkError>(post[key]));
}

/// Law: a key never created is invisible — redirection and statistics both
/// fail with `NotFound`, whatever token is offered, and redirection leaves
/// the store unchanged.
pub proof fn lemma_unknown_key_not_found(
    links: Map<Seq<char>, LinkData>,
    key: Seq<char>,
    token: Option<Seq<char>>,
)
    requires
        !links.contains_key(key),
    ensures
        redirect_model(links, key) == Err::<Seq<char>, LinkError>(LinkError::NotFound),
        redirect_state(links, key) == links,
        stats_model(links, key, token) == Err::<LinkData, LinkError>(LinkError::NotFound),
{
}

/// Law: statistics without a token fail with `NotFound` — indistinguishable
/// from a missing link — for existing and missing keys alike.
pub proof fn lemma_stats_without_token_not_found(links: Map<Seq<char>, LinkData>, key: Seq<char>)
    ensures
        stats_model(links, key, None) == Err::<LinkData, LinkError>(LinkError::NotFound),
{
}

/// Law: statistics with a token other than the stored one fail with
/// `Unauthorized`, for every existing key.
pub proof fn lemma_stats_wrong_token_unauthorized(
    links: Map<Seq<char>, LinkData>,
    key: Seq<char>,
    token: Seq<char>,
)
    requires
        links.contains_key(key),
        token != links[key].token,
    ensures
        stats_model(links, key, Some(token)) == Err::<LinkData, LinkError>(
            LinkError::Unauthorized,
        ),
{
}

/// Law: a short key is claimed at most once — a creation that drew an
/// already claimed candidate changes nothing, so of several creations that
/// drew the same candidate, only the first can make it an active mapping.
pub proof fn lemma_key_claimed_once(
    links: Map<Seq<char>, LinkData>,
    key: Seq<char>,
    url: Seq<char>,
    token: Seq<char>,
    id: int,
)
    requires
        links.contains_key(key),
    ensures
        apply_op(links, (LinkOp::Create { key, url, token, id })) == links,
{
}

} // verus!
