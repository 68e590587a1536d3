//! What the web interface is answered: the type of the files it is served,
//! pages of the player history, the commands it asks to run, and the
//! requests for players' information that wait on profile lookups. The
//! server itself is run by the application.
use crate::command_manager::Command;
use crate::parties::contains_id;
use crate::player::{shows_player, shows_player_record, Player, Players, SteamInfo};
use crate::steam_api::SteamAPIError;
use std::collections::VecDeque;
use vstd::prelude::*;
use vstd::string::StrSliceExecFns;

verus! {

broadcast use vstd::std_specs::hash::group_hash_axioms;

/// The MIME type for a file extension; "application/octet-stream" for one
/// not known, and for a file without an extension (read as "bin").
pub open spec fn content_type_of(ext: Seq<char>) -> Seq<char> {
    if ext == "htm"@ || ext == "html"@ {
        "text/html"@
    } else if ext == "jpg"@ || ext == "jpeg"@ {
        "image/jpeg"@
    } else if ext == "js"@ {
        "text/javascript"@
    } else if ext == "json"@ {
        "application/json"@
    } else if ext == "png"@ {
        "image/png"@
    } else if ext == "weba"@ {
        "audio/weba"@
    } else if ext == "webm"@ {
        "video/webm"@
    } else if ext == "webp"@ {
        "image/webp"@
    } else if ext == "txt"@ {
        "text/plain"@
    } else if ext == "mp3"@ {
        "audio/mp3"@
    } else if ext == "mp4"@ {
        "video/mp4"@
    } else if ext == "ttf"@ {
        "font/ttf"@
    } else if ext == "otf"@ {
        "font/otf"@
    } else if ext == "css"@ {
        "text/css"@
    } else {
        "application/octet-stream"@
    }
}

/// Whether `a` and `b` hold the same text.
fn str_eq(a: &str, b: &str) -> (r: bool)
    ensures
        r == (a@ == b@),
{
    let x = a.to_string();
    let y = b.to_string();
    x == y
}

/// The MIME type of a file served to the web interface, by the file's
/// extension (see `content_type_of`).
pub fn guess_content_type(extension: Option<&str>) -> (t: &'static str)
    ensures
        t@ == content_type_of(
            match extension {
                Some(e) => e@,
                None => "bin"@,
            },
        ),
{
    let ext = match extension {
        Some(e) => e,
        None => "bin",
    };
    if str_eq(ext, "htm") || str_eq(ext, "html") {
        "text/html"
    } else if str_eq(ext, "jpg") || str_eq(ext, "jpeg") {
        "image/jpeg"
    } else if str_eq(ext, "js") {
        "text/javascript"
    } else if str_eq(ext, "json") {
        "application/json"
    } else if str_eq(ext, "png") {
        "image/png"
    } else if str_eq(ext, "weba") {
        "audio/weba"
    } else if str_eq(ext, "webm") {
        "video/webm"
    } else if str_eq(ext, "webp") {
        "image/webp"
    } else if str_eq(ext, "txt") {
        "text/plain"
    } else if str_eq(ext, "mp3") {
        "audio/mp3"
    } else if str_eq(ext, "mp4") {
        "video/mp4"
    } else if str_eq(ext, "ttf") {
        "font/ttf"
    } else if str_eq(ext, "otf") {
        "font/otf"
    } else if str_eq(ext, "css") {
        "text/css"
    } else {
        "application/octet-stream"
    }
}

/// A range of the player history, most recent first: entries `from` up to,
/// not including, `to`.
#[derive(Debug, Clone, Copy, PartialEq, Eq, Structural)]
pub struct Pagination {
    pub from: usize,
    pub to: usize,
}

impl Pagination {
    /// The first hundred entries.
    pub fn default() -> (p: Pagination)
        ensures
            p.from == 0,
            p.to == 100,
    {
        Pagination { from: 0, to: 100 }
    }
}

/// The entries of the history that a page holds: the history is read most
/// recent first, and entries `from` up to `to` are taken, as far as there
/// are any.
pub open spec fn spec_history_page(history: Seq<u64>, page: Pagination) -> Seq<u64> {
    let rev = history.reverse();
    if page.from >= rev.len() {
        Seq::empty()
    } else if page.to >= rev.len() {
        rev.subrange(page.from as int, rev.len() as int)
    } else {
        rev.subrange(page.from as int, page.to as int)
    }
}

/// The entries of the history that a page holds (see `spec_history_page`).
pub fn history_page(history: &VecDeque<u64>, page: &Pagination) -> (r: Vec<u64>)
    requires
        page.from <= page.to,
    ensures
        r@ == spec_history_page(history@, *page),
{
    let len = history.len();
    let end = if page.to < len {
        page.to
    } else {
        len
    };
    let mut r: Vec<u64> = Vec::new();
    if page.from >= end {
        proof {
            if page.from < len {
                assert(history@.reverse().subrange(page.from as int, end as int) =~= Seq::<u64>::empty());
            }
        }
        return r;
    }
    let mut k = page.from;
    while k < end
        invariant
            len == history@.len(),
            page.from <= k <= end <= len,
            r@ == history@.reverse().subrange(page.from as int, k as int),
        decreases end - k,
    {
        r.push(history[len - 1 - k]);
        proof {
            assert(r@ =~= history@.reverse().subrange(page.from as int, k + 1));
        }
        k = k + 1;
    }
    r
}

/// What the web interface shows of each player of a page of the history,
/// in the page's order.
pub fn get_history<'a>(players: &'a Players, page: &Pagination) -> (r: Vec<Player<'a>>)
    requires
        page.from <= page.to,
    ensures
        r@.len() == spec_history_page(players.history@, *page).len(),
        forall|i: int|
            0 <= i < r@.len() ==> shows_player(*players, spec_history_page(players.history@, *page)[i], #[trigger] r@[i]),
{
    let ids = history_page(&players.history, page);
    let mut r: Vec<Player<'a>> = Vec::new();
    let mut i: usize = 0;
    while i < ids.len()
        invariant
            i <= ids@.len(),
            ids@ == spec_history_page(players.history@, *page),
            r@.len() == i,
            forall|j: int| 0 <= j < i ==> shows_player(*players, ids@[j], #[trigger] r@[j]),
        decreases ids.len() - i,
    {
        let p = players.get_serializable_player(ids[i]);
        r.push(p);
        i = i + 1;
    }
    r
}

/// Console commands the web interface asks to run, in order.
pub struct RequestedCommands {
    pub commands: Vec<Command>,
}

/// A request for players' information, identified by `token`: each player
/// with what is known of them, and the players whose profile lookup it still
/// waits on. It is answered once it waits on none.
pub struct PostUserRequest {
    pub token: u64,
    pub users: Vec<(u64, Option<SteamInfo>)>,
    pub waiting_users: Vec<u64>,
}

/// A request for players' information, as values.
pub struct RequestView {
    pub token: u64,
    pub users: Seq<(u64, Option<SteamInfo>)>,
    pub waiting: Seq<u64>,
}

impl View for PostUserRequest {
    type V = RequestView;

    open spec fn view(&self) -> RequestView {
        RequestView { token: self.token, users: self.users@, waiting: self.waiting_users@ }
    }
}

/// The requests of a queue, as values.
pub open spec fn queue_view(q: Seq<PostUserRequest>) -> Seq<RequestView> {
    q.map_values(|r: PostUserRequest| r@)
}

/// Whether a request waits on no lookup.
pub open spec fn is_ready() -> spec_fn(RequestView) -> bool {
    |r: RequestView| r.waiting.len() == 0
}

/// Whether a request still waits on a lookup.
pub open spec fn is_waiting() -> spec_fn(RequestView) -> bool {
    |r: RequestView| r.waiting.len() > 0
}

/// Whether no request of a queue is ready: each still waits on a lookup.
pub open spec fn none_ready(q: Seq<RequestView>) -> bool {
    forall|i: int| 0 <= i < q.len() ==> (#[trigger] q[i]).waiting.len() > 0
}

/// Whether an id differs from `id`.
pub open spec fn other_than(id: u64) -> spec_fn(u64) -> bool {
    |s: u64| s != id
}

/// The index of the first entry for `id` among a request's players, or the
/// number of players where there is none.
pub open spec fn first_user(users: Seq<(u64, Option<SteamInfo>)>, id: u64) -> int
    decreases users.len(),
{
    if users.len() == 0 {
        0
    } else if users[0].0 == id {
        0
    } else {
        1 + first_user(users.drop_first(), id)
    }
}

/// A request once the profile of `id` was found to be `si`: the first entry
/// for `id` holds it, and the request no longer waits on `id`. A request
/// that does not name `id` is left as it is.
pub open spec fn request_step(r: RequestView, id: u64, si: SteamInfo) -> RequestView {
    let k = first_user(r.users, id);
    if k < r.users.len() {
        RequestView {
            token: r.token,
            users: r.users.update(k, (id, Some(si))),
            waiting: r.waiting.filter(other_than(id)),
        }
    } else {
        r
    }
}

/// The requests once the lookup of one account came back: a profile found
/// is given to each request.
pub open spec fn account_step(q: Seq<RequestView>, id: u64, found: Result<SteamInfo, SteamAPIError>) -> Seq<RequestView> {
    match found {
        Ok(si) => q.map_values(|r: RequestView| request_step(r, id, si)),
        Err(_) => q,
    }
}

/// The requests once the lookups of `accounts` came back, in order.
pub open spec fn accounts_applied(q: Seq<RequestView>, accounts: Seq<(u64, Result<SteamInfo, SteamAPIError>)>) -> Seq<RequestView>
    decreases accounts.len(),
{
    if accounts.len() == 0 {
        q
    } else {
        let a = accounts.last();
        account_step(accounts_applied(q, accounts.drop_last()), a.0, a.1)
    }
}

/// The lookups in progress once those of `accounts` came back.
pub open spec fn progress_after(p: Seq<u64>, accounts: Seq<(u64, Result<SteamInfo, SteamAPIError>)>) -> Seq<u64>
    decreases accounts.len(),
{
    if accounts.len() == 0 {
        p
    } else {
        progress_after(p, accounts.drop_last()).filter(other_than(accounts.last().0))
    }
}

/// Whether a player of a new request is to be looked up: no lookup of it is
/// in progress, or nothing is known of it yet.
pub open spec fn to_look_up(in_progress: Seq<u64>, players: Players) -> spec_fn(u64) -> bool {
    |s: u64| !in_progress.contains(s) || !players.steam_info@.contains_key(s)
}

/// The players of a new request, each with what is known of them.
pub open spec fn known_users(users: Seq<u64>, players: Players) -> Seq<(u64, Option<SteamInfo>)> {
    Seq::new(
        users.len(),
        |i: int|
            (users[i], if players.steam_info@.contains_key(users[i]) {
                Some(players.steam_info@[users[i]])
            } else {
                None
            }),
    )
}

/// How many profiles one lookup of the web interface asks for at most.
pub const POST_USER_BATCH: usize = 100;

/// Whether `batches` are `ids` cut, in order, into runs of
/// `POST_USER_BATCH`, the last one possibly shorter.
pub open spec fn cut_in_batches(ids: Seq<u64>, batches: Seq<Seq<u64>>) -> bool {
    &&& batches.len() == (ids.len() + 99) / 100
    &&& forall|k: int|
        0 <= k < batches.len() ==> #[trigger] batches[k] == ids.subrange(
            100 * k,
            if 100 * k + 100 <= ids.len() {
                100 * k + 100
            } else {
                ids.len() as int
            },
        )
}

/// What a new request leads to: the profiles to look up, in batches, and the
/// requests answered now.
pub struct PostUserOutcome {
    pub lookups: Vec<Vec<u64>>,
    pub ready: Vec<PostUserRequest>,
}

/// The ids of `v` other than `id`, in order.
fn without_id(v: &Vec<u64>, id: u64) -> (r: Vec<u64>)
    ensures
        r@ == v@.filter(other_than(id)),
{
    let mut r: Vec<u64> = Vec::new();
    let mut i: usize = 0;
    while i < v.len()
        invariant
            i <= v@.len(),
            r@ == v@.take(i as int).filter(other_than(id)),
        decreases v.len() - i,
    {
        proof {
            reveal(Seq::filter);
            assert(v@.take(i + 1).drop_last() =~= v@.take(i as int));
        }
        if v[i] != id {
            r.push(v[i]);
        }
        i = i + 1;
    }
    proof {
        assert(v@.take(v@.len() as int) =~= v@);
    }
    r
}

/// The index of the first entry for `id` (see `first_user`).
fn find_user(users: &Vec<(u64, Option<SteamInfo>)>, id: u64) -> (k: usize)
    ensures
        k == first_user(users@, id),
{
    let mut i: usize = 0;
    assert(users@.subrange(0, users@.len() as int) =~= users@);
    while i < users.len()
        invariant
            i <= users@.len(),
            first_user(users@, id) == i + first_user(users@.subrange(i as int, users@.len() as int), id),
        decreases users.len() - i,
    {
        proof {
            assert(users@.subrange(i as int, users@.len() as int).drop_first() =~= users@.subrange(
                i + 1,
                users@.len() as int,
            ));
        }
        if users[i].0 == id {
            return i;
        }
        i = i + 1;
    }
    i
}

/// A request once the profile of `id` was found to be `si` (see
/// `request_step`).
fn apply_profile(req: PostUserRequest, id: u64, si: &SteamInfo) -> (r: PostUserRequest)
    ensures
        r@ == request_step(req@, id, *si),
{
    let mut req = req;
    let k = find_user(&req.users, id);
    if k < req.users.len() {
        req.users.set(k, (id, Some(si.duplicate())));
        req.waiting_users = without_id(&req.waiting_users, id);
    }
    req
}

/// `ids` cut, in order, into runs of `POST_USER_BATCH` (see
/// `cut_in_batches`).
fn batches(ids: &Vec<u64>) -> (b: Vec<Vec<u64>>)
    ensures
        cut_in_batches(ids@, b@.map_values(|v: Vec<u64>| v@)),
{
    let len = ids.len();
    let mut b: Vec<Vec<u64>> = Vec::new();
    let mut start: usize = 0;
    while start < len
        invariant
            len == ids@.len(),
            start <= len,
            start == 100 * b@.len(),
            forall|k: int|
                0 <= k < b@.len() ==> #[trigger] b@[k]@ == ids@.subrange(
                    100 * k,
                    if 100 * k + 100 <= ids@.len() {
                        100 * k + 100
                    } else {
                        ids@.len() as int
                    },
                ),
            b@.len() > 0 ==> 100 * (b@.len() - 1) < len,
            b@.len() > 0 ==> start < len,
        decreases len - start,
    {
        let end = if len - start <= POST_USER_BATCH {
            len
        } else {
            start + POST_USER_BATCH
        };
        let mut chunk: Vec<u64> = Vec::new();
        let mut i = start;
        while i < end
            invariant
                start <= i <= end <= len == ids@.len(),
                chunk@ == ids@.subrange(start as int, i as int),
            decreases end - i,
        {
            chunk.push(ids[i]);
            proof {
                assert(chunk@ =~= ids@.subrange(start as int, i + 1));
            }
            i = i + 1;
        }
        let ghost nb: int = b@.len() as int;
        b.push(chunk);
        proof {
            assert(b@[nb]@ == ids@.subrange(
                100 * nb,
                if 100 * nb + 100 <= ids@.len() {
                    100 * nb + 100
                } else {
                    ids@.len() as int
                },
            ));
        }
        start = end;
        proof {
            if end < len {
                assert(end == 100 * b@.len());
            }
        }
        if end == len {
            proof {
                let n = b@.len() as int;
                assert(100 * (n - 1) < len as int <= 100 * n);
                assert((len as int + 99) / 100 == n) by (nonlinear_arith)
                    requires
                        100 * (n - 1) < len as int <= 100 * n,
                ;
                assert(b@.map_values(|v: Vec<u64>| v@).len() == n);
            }
            return b;
        }
    }
    proof {
        assert(len == 0);
        assert(b@.len() == 0);
    }
    b
}

/// Each entry of `users`, with what is known of the player.
fn known_entries(players: &Players, users: &[u64]) -> (r: Vec<(u64, Option<SteamInfo>)>)
    ensures
        r@ == known_users(users@, *players),
{
    let mut r: Vec<(u64, Option<SteamInfo>)> = Vec::new();
    let mut i: usize = 0;
    while i < users.len()
        invariant
            i <= users@.len(),
            r@ == known_users(users@, *players).take(i as int),
        decreases users.len() - i,
    {
        let s = users[i];
        let si = match players.steam_info.get(&s) {
            Some(x) => Some(x.duplicate()),
            None => None,
        };
        r.push((s, si));
        proof {
            assert(r@ =~= known_users(users@, *players).take(i + 1));
        }
        i = i + 1;
    }
    proof {
        assert(known_users(users@, *players).take(users@.len() as int) =~= known_users(users@, *players));
    }
    r
}

/// Whether `p` is what a request answers of the player of entry `e`: what
/// the web interface shows of the player, with the profile the request holds
/// in place of the one the players know, and the name of that profile where
/// it holds one.
pub open spec fn answers_player(players: Players, e: (u64, Option<SteamInfo>), p: Player) -> bool {
    &&& shows_player_record(players, e.0, p)
    &&& match p.steam_info {
        Some(x) => e.1 == Some(*x),
        None => e.1 is None,
    }
    &&& p.name@ == match e.1 {
        Some(si) => si.account_name@,
        None => crate::player::shown_name(players, e.0),
    }
}

/// What a request is answered: each of its players (see `answers_player`),
/// in order.
pub fn post_user_players<'a>(players: &'a Players, users: &'a [(u64, Option<SteamInfo>)]) -> (r: Vec<Player<'a>>)
    ensures
        r@.len() == users@.len(),
        forall|i: int| 0 <= i < r@.len() ==> answers_player(*players, users@[i], #[trigger] r@[i]),
{
    let mut r: Vec<Player<'a>> = Vec::new();
    let mut i: usize = 0;
    while i < users.len()
        invariant
            i <= users@.len(),
            r@.len() == i,
            forall|j: int| 0 <= j < i ==> answers_player(*players, users@[j], #[trigger] r@[j]),
        decreases users.len() - i,
    {
        let entry = &users[i];
        let mut p = players.get_serializable_player(entry.0);
        match &entry.1 {
            Some(si) => {
                p.steam_info = Some(si);
                p.name = si.account_name.as_str();
            },
            None => {
                p.steam_info = None;
            },
        }
        r.push(p);
        i = i + 1;
    }
    r
}

/// Handles the requests of the web interface that wait on profile lookups.
pub struct WebAPIHandler {
    pub profile_requests_in_progress: Vec<u64>,
    pub post_user_queue: Vec<PostUserRequest>,
}

impl WebAPIHandler {
    /// No lookups in progress, no request waiting.
    pub fn new() -> (h: WebAPIHandler)
        ensures
            h.profile_requests_in_progress@.len() == 0,
            h.post_user_queue@.len() == 0,
    {
        WebAPIHandler { profile_requests_in_progress: Vec::new(), post_user_queue: Vec::new() }
    }

    /// Takes the requests that wait on no lookup out of the queue, in order.
    pub fn take_ready(&mut self) -> (ready: Vec<PostUserRequest>)
        ensures
            queue_view(ready@) == queue_view(old(self).post_user_queue@).filter(is_ready()),
            queue_view(final(self).post_user_queue@) == queue_view(old(self).post_user_queue@).filter(
                is_waiting(),
            ),
            none_ready(queue_view(final(self).post_user_queue@)),
            final(self).profile_requests_in_progress == old(self).profile_requests_in_progress,
    {
        let mut queue: Vec<PostUserRequest> = Vec::new();
        std::mem::swap(&mut queue, &mut self.post_user_queue);
        let ghost q = queue_view(queue@);
        let mut ready: Vec<PostUserRequest> = Vec::new();
        let mut waiting: Vec<PostUserRequest> = Vec::new();
        for r in it: queue
            invariant
                q == queue_view(it.seq()),
                queue_view(ready@) == q.take(it.index()).filter(is_ready()),
                queue_view(waiting@) == q.take(it.index()).filter(is_waiting()),
        {
            proof {
                reveal(Seq::filter);
                assert(q.take(it.index() + 1).drop_last() =~= q.take(it.index()));
                assert(q.take(it.index() + 1).last() == r@);
            }
            let ghost before_ready = ready@;
            let ghost before_waiting = waiting@;
            if r.waiting_users.len() == 0 {
                ready.push(r);
                proof {
                    assert(queue_view(ready@) =~= queue_view(before_ready).push(ready@.last()@));
                }
            } else {
                waiting.push(r);
                proof {
                    assert(queue_view(waiting@) =~= queue_view(before_waiting).push(waiting@.last()@));
                }
            }
        }
        proof {
            assert(q.take(q.len() as int) =~= q);
            q.filter_lemma(is_waiting());
        }
        self.post_user_queue = waiting;
        ready
    }

    /// A request of the web interface for the players `users`, to be
    /// answered through `token`. Without a Steam Web API key nothing is done.
    /// Otherwise the request joins the queue with what is known of each
    /// player; it waits on the players with no lookup in progress or nothing
    /// known (see `to_look_up`), whose lookups are now in progress and asked
    /// for in batches. Where it waits on none, the ready requests are taken
    /// out of the queue.
    pub fn handle_post_user_request(&mut self, players: &Players, steam_api_key: &str, token: u64, users: &[u64]) -> (out: Option<PostUserOutcome>)
        ensures
            steam_api_key@.len() == 0 ==> out is None && *final(self) == *old(self),
            steam_api_key@.len() > 0 ==> (out matches Some(o) && {
                let w = users@.filter(to_look_up(old(self).profile_requests_in_progress@, *players));
                let req = RequestView { token, users: known_users(users@, *players), waiting: w };
                let q = queue_view(old(self).post_user_queue@).push(req);
                &&& final(self).profile_requests_in_progress@ == old(self).profile_requests_in_progress@ + w
                &&& cut_in_batches(w, o.lookups@.map_values(|b: Vec<u64>| b@))
                &&& none_ready(queue_view(old(self).post_user_queue@)) ==> none_ready(
                    queue_view(final(self).post_user_queue@),
                )
                &&& if w.len() == 0 {
                    &&& queue_view(o.ready@) == q.filter(is_ready())
                    &&& queue_view(final(self).post_user_queue@) == q.filter(is_waiting())
                } else {
                    &&& o.ready@.len() == 0
                    &&& queue_view(final(self).post_user_queue@) == q
                }
            }),
    {
        if steam_api_key.unicode_len() == 0 {
            return None;
        }
        let ghost p0 = self.profile_requests_in_progress@;
        let ghost q0 = queue_view(self.post_user_queue@);
        let entries = known_entries(players, users);
        let mut waiting: Vec<u64> = Vec::new();
        let mut i: usize = 0;
        while i < users.len()
            invariant
                i <= users@.len(),
                self.profile_requests_in_progress@ == p0,
                waiting@ == users@.take(i as int).filter(to_look_up(p0, *players)),
            decreases users.len() - i,
        {
            proof {
                reveal(Seq::filter);
                assert(users@.take(i + 1).drop_last() =~= users@.take(i as int));
            }
            let s = users[i];
            if !contains_id(self.profile_requests_in_progress.as_slice(), s) || !players.steam_info.contains_key(&s) {
                waiting.push(s);
            }
            i = i + 1;
        }
        proof {
            assert(users@.take(users@.len() as int) =~= users@);
        }
        let mut j: usize = 0;
        while j < waiting.len()
            invariant
                j <= waiting@.len(),
                self.profile_requests_in_progress@ == p0 + waiting@.take(j as int),
                queue_view(self.post_user_queue@) == q0,
            decreases waiting.len() - j,
        {
            self.profile_requests_in_progress.push(waiting[j]);
            proof {
                assert(p0 + waiting@.take(j + 1) =~= self.profile_requests_in_progress@);
            }
            j = j + 1;
        }
        proof {
            assert(waiting@.take(waiting@.len() as int) =~= waiting@);
        }
        let lookups = batches(&waiting);
        let ready_now = waiting.len() == 0;
        let req = PostUserRequest { token, users: entries, waiting_users: waiting };
        self.post_user_queue.push(req);
        proof {
            assert(queue_view(self.post_user_queue@) =~= q0.push(req@));
        }
        let ready = if ready_now {
            self.take_ready()
        } else {
            Vec::new()
        };
        Some(PostUserOutcome { lookups, ready })
    }

    /// Gives a profile found to each request (see `request_step`).
    fn apply_to_queue(&mut self, id: u64, si: &SteamInfo)
        ensures
            queue_view(final(self).post_user_queue@) == queue_view(old(self).post_user_queue@).map_values(
                |r: RequestView| request_step(r, id, *si),
            ),
            final(self).profile_requests_in_progress == old(self).profile_requests_in_progress,
    {
        let mut queue: Vec<PostUserRequest> = Vec::new();
        std::mem::swap(&mut queue, &mut self.post_user_queue);
        let ghost q = queue_view(queue@);
        let mut out: Vec<PostUserRequest> = Vec::new();
        for r in it: queue
            invariant
                q == queue_view(it.seq()),
                queue_view(out@) == q.take(it.index()).map_values(|r: RequestView| request_step(r, id, *si)),
        {
            proof {
                assert(q[it.index()] == r@);
            }
            let ghost before = out@;
            out.push(apply_profile(r, id, si));
            proof {
                assert(queue_view(out@) =~= queue_view(before).push(out@.last()@));
                assert(q.take(it.index() + 1) =~= q.take(it.index()).push(q[it.index()]));
                assert(queue_view(out@) =~= q.take(it.index() + 1).map_values(
                    |r: RequestView| request_step(r, id, *si),
                ));
            }
        }
        proof {
            assert(q.take(q.len() as int) =~= q);
        }
        self.post_user_queue = out;
    }

    /// The lookups of a batch of profiles came back. Where the batch failed,
    /// every request stops waiting and all are answered with what they
    /// hold. Otherwise, account by account, its lookup is no longer in
    /// progress and a profile found is given to the requests (see
    /// `accounts_applied`); then the ready requests are taken out of the
    /// queue.
    pub fn handle_profile_lookup(&mut self, result: &Result<Vec<(u64, Result<SteamInfo, SteamAPIError>)>, SteamAPIError>) -> (ready: Vec<PostUserRequest>)
        ensures
            match result {
                Err(_) => {
                    &&& queue_view(ready@) == queue_view(old(self).post_user_queue@).map_values(
                        |r: RequestView| RequestView { token: r.token, users: r.users, waiting: Seq::empty() },
                    )
                    &&& final(self).post_user_queue@.len() == 0
                    &&& final(self).profile_requests_in_progress == old(self).profile_requests_in_progress
                    &&& none_ready(queue_view(final(self).post_user_queue@))
                },
                Ok(accounts) => {
                    let q = accounts_applied(queue_view(old(self).post_user_queue@), accounts@);
                    &&& queue_view(ready@) == q.filter(is_ready())
                    &&& queue_view(final(self).post_user_queue@) == q.filter(is_waiting())
                    &&& none_ready(queue_view(final(self).post_user_queue@))
                    &&& final(self).profile_requests_in_progress@ == progress_after(
                        old(self).profile_requests_in_progress@,
                        accounts@,
                    )
                },
            },
    {
        match result {
            Err(_) => {
                let mut queue: Vec<PostUserRequest> = Vec::new();
                std::mem::swap(&mut queue, &mut self.post_user_queue);
                let ghost q = queue_view(queue@);
                let mut out: Vec<PostUserRequest> = Vec::new();
                for r in it: queue
                    invariant
                        q == queue_view(it.seq()),
                        queue_view(out@) == q.take(it.index()).map_values(
                            |r: RequestView| RequestView { token: r.token, users: r.users, waiting: Seq::empty() },
                        ),
                {
                    proof {
                        assert(q[it.index()] == r@);
                    }
                    let mut r = r;
                    r.waiting_users = Vec::new();
                    let ghost before = out@;
                    out.push(r);
                    proof {
                        assert(queue_view(out@) =~= queue_view(before).push(out@.last()@));
                        assert(q.take(it.index() + 1) =~= q.take(it.index()).push(q[it.index()]));
                        assert(queue_view(out@) =~= q.take(it.index() + 1).map_values(
                            |r: RequestView| RequestView { token: r.token, users: r.users, waiting: Seq::empty() },
                        ));
                    }
                }
                proof {
                    assert(q.take(q.len() as int) =~= q);
                }
                out
            },
            Ok(accounts) => {
                let ghost q0 = queue_view(self.post_user_queue@);
                let ghost p0 = self.profile_requests_in_progress@;
                let mut i: usize = 0;
                while i < accounts.len()
                    invariant
                        i <= accounts@.len(),
                        queue_view(self.post_user_queue@) == accounts_applied(q0, accounts@.take(i as int)),
                        self.profile_requests_in_progress@ == progress_after(p0, accounts@.take(i as int)),
                    decreases accounts.len() - i,
                {
                    proof {
                        assert(accounts@.take(i + 1).drop_last() =~= accounts@.take(i as int));
                        assert(accounts@.take(i + 1).last() == accounts@[i as int]);
                    }
                    let id = accounts[i].0;
                    self.profile_requests_in_progress = without_id(&self.profile_requests_in_progress, id);
                    match &accounts[i].1 {
                        Ok(si) => self.apply_to_queue(id, si),
                        Err(_) => {},
                    }
                    i = i + 1;
                }
                proof {
                    assert(accounts@.take(accounts@.len() as int) =~= accounts@);
                }
                self.take_ready()
            },
        }
    }
}

} // verus!
