//! What is sent to the server, and what is made of its answers.
use vstd::prelude::*;

use crate::actual::error::ActualError;
use crate::actual::model::{ApiError, Envelope, UserFile};
use crate::actual::proto::{
    a_request_without_edits_holds_only_its_texts, request_bytes, short, tagged, texts_in, Asked,
    SyncRequest,
};
use crate::store::sql::text_if_any;
use crate::text::{same_text, texts};

verus! {

pub const DEFAULT_ACTUAL_CLIENT_TIMEOUT: u64 = 30;

pub const ACTUAL_TOKEN_HEADER: &'static str = "X-ACTUAL-TOKEN";

pub const ACTUAL_FILE_ID_HEADER: &'static str = "X-ACTUAL-FILE-ID";

pub const LOGIN: &'static str = "/account/login";

pub const LIST_FILES: &'static str = "/sync/list-user-files";

pub const DOWNLOAD: &'static str = "/sync/download-user-file";

pub const SYNC: &'static str = "/sync/sync";

/// The status with which the server turns away who has not logged in.
pub const UNAUTHORIZED: u16 = 401;

/// The address of an endpoint.
pub fn url(base: &str, endpoint: &str) -> (r: String)
    ensures
        r@ == base@ + endpoint@,
{
    let mut out = base.to_owned();
    out.append(endpoint);
    out
}

/// The error for an endpoint that could not be reached.
pub fn unreachable_endpoint(base: &str, endpoint: &str, cause: String) -> (r: ActualError)
    ensures
        r matches ActualError::Transport { url, cause: c } && url@ == base@ + endpoint@ && c
            == cause,
{
    ActualError::Transport { url: url(base, endpoint), cause }
}

/// The token to go on with after a login.
pub fn token_after_login(token: Option<String>) -> (r: Result<String, ActualError>)
    ensures
        match token {
            Some(t) => r == Ok::<String, ActualError>(t),
            None => r matches Err(ActualError::Auth(reason)) && reason@ == "no token after login"@,
        },
{
    match token {
        Some(token) => Ok(token),
        None => Err(ActualError::Auth("no token after login".to_owned())),
    }
}

/// Whether a refusal with this status and reason is about who is asking.
pub open spec fn about_identity(status: u16, reason: Seq<char>) -> bool {
    status == UNAUTHORIZED || reason == "invalid-password"@
}

/// What a JSON answer comes to, given its status and what was made of its body.
pub fn json_outcome<T>(
    endpoint: &'static str,
    status: u16,
    body: Result<Envelope<T>, String>,
) -> (r: Result<T, ActualError>)
    ensures
        match body {
            Ok(Envelope::Success { data }) => r == Ok::<T, ActualError>(data),
            Ok(Envelope::Failure { reason, .. }) => r == Err::<T, ActualError>(
                if about_identity(status, reason@) {
                    ActualError::Auth(reason)
                } else {
                    ActualError::Api { status, reason }
                },
            ),
            Err(cause) => r == Err::<T, ActualError>(ActualError::Decode { endpoint, cause }),
        },
{
    match body {
        Ok(Envelope::Success { data }) => Ok(data),
        Ok(Envelope::Failure { reason, .. }) => Err(
            if status == UNAUTHORIZED || same_text(reason.as_str(), "invalid-password") {
                ActualError::Auth(reason)
            } else {
                ActualError::Api { status, reason }
            },
        ),
        Err(cause) => Err(ActualError::Decode { endpoint, cause }),
    }
}

/// Whether a status is one of success.
pub fn succeeded(status: u16) -> (r: bool)
    ensures
        r == (200 <= status < 300),
{
    200 <= status && status < 300
}

/// The error for a binary route that did not succeed. Errors are envelopes even
/// there, but not always: a body that is none is itself the reason.
pub fn binary_refusal(status: u16, body: String, parsed: Option<ApiError>) -> (r: ActualError)
    ensures
        match parsed {
            Some(e) => r == (if status == UNAUTHORIZED {
                ActualError::Auth(e.reason)
            } else {
                ActualError::Api { status, reason: e.reason }
            }),
            None => r == (ActualError::Api { status, reason: body }),
        },
{
    match parsed {
        Some(ApiError { reason }) => if status == UNAUTHORIZED {
            ActualError::Auth(reason)
        } else {
            ActualError::Api { status, reason }
        },
        None => ActualError::Api { status, reason: body },
    }
}

/// The request for everything that happened to a budget since a clock. It
/// carries no edits: nothing is ever pushed back.
pub open spec fn asking(file_id: Seq<char>, group_id: Seq<char>, since: Seq<char>) -> Asked {
    Asked { messages: Seq::empty(), file_id, group_id, key_id: Seq::empty(), since }
}

/// The body of the request for everything since a clock.
pub fn sync_request(file_id: &str, group_id: &str, since: &str) -> (r: Vec<u8>)
    ensures
        r@ == request_bytes(asking(file_id@, group_id@, since@)),
{
    let request = SyncRequest {
        messages: Vec::new(),
        file_id: file_id.to_owned(),
        group_id: group_id.to_owned(),
        key_id: String::new(),
        since: since.to_owned(),
    };
    assert(request@.messages =~= Seq::empty());
    assert(request@.key_id =~= Seq::empty());
    request.encode_to_vec()
}

// --------------------------------------------------------------- selection -----
/// The budgets that are not deleted. The server lists deleted ones too.
pub open spec fn live(files: Seq<UserFile>) -> Seq<UserFile> {
    files.filter(|f: UserFile| f.deleted == 0)
}

/// The first budget with this group id. The sync id in Actual's settings is the
/// *group* id, never the file id.
pub open spec fn in_group(files: Seq<UserFile>, id: Seq<char>) -> Option<UserFile>
    decreases files.len(),
{
    if files.len() == 0 {
        None
    } else if text_if_any(files[0].group_id) == Some(id) {
        Some(files[0])
    } else {
        in_group(files.skip(1), id)
    }
}

/// The group ids that there are.
pub open spec fn group_ids(files: Seq<UserFile>) -> Seq<Seq<char>>
    decreases files.len(),
{
    if files.len() == 0 {
        Seq::empty()
    } else {
        match files.last().group_id {
            Some(id) => group_ids(files.drop_last()).push(id@),
            None => group_ids(files.drop_last()),
        }
    }
}

/// The budget that is meant: the one with the sync id, or the only one.
pub open spec fn meant(files: Seq<UserFile>, sync_id: Option<Seq<char>>) -> Option<UserFile> {
    match sync_id {
        Some(id) => in_group(live(files), id),
        None => if live(files).len() == 1 {
            Some(live(files)[0])
        } else {
            None
        },
    }
}

/// The result is the one that is called for. Encryption is looked at last, and
/// on the budget that is meant only: an encrypted budget that is not meant does
/// not fail the whole operation.
pub open spec fn selects(
    files: Seq<UserFile>,
    sync_id: Option<Seq<char>>,
    r: Result<UserFile, ActualError>,
) -> bool {
    match meant(files, sync_id) {
        Some(f) => if f.encrypt_key_id is Some {
            r matches Err(ActualError::Encrypted { name }) && name@ == f.name@
        } else {
            r == Ok::<UserFile, ActualError>(f)
        },
        None => match sync_id {
            Some(id) => r matches Err(ActualError::BudgetNotFound { sync_id: s, available }) && s@
                == id && texts(available@) == group_ids(live(files)),
            None => if live(files).len() == 0 {
                r matches Err(ActualError::NoBudget)
            } else {
                r matches Err(ActualError::AmbiguousBudget { names }) && texts(names@) == live(
                    files,
                ).map_values(|f: UserFile| f.name@)
            },
        },
    }
}

/// An optional text by its contents.
pub open spec fn chars_if_any(text: Option<&str>) -> Option<Seq<char>> {
    match text {
        Some(s) => Some(s@),
        None => None,
    }
}

/// Functional core: choose the budget to work with, given everything the
/// server listed. Pure: no network, so every branch can be tested.
pub fn select(files: Vec<UserFile>, sync_id: Option<&str>) -> (r: Result<UserFile, ActualError>)
    ensures
        selects(files@, chars_if_any(sync_id), r),
{
    let live_files = keep_live(&files);
    let chosen: UserFile = match sync_id {
        Some(id) => match find_in_group(&live_files, id) {
            Some(f) => f,
            None => {
                return Err(
                    ActualError::BudgetNotFound {
                        sync_id: id.to_owned(),
                        available: collect_group_ids(&live_files),
                    },
                );
            },
        },
        None => if live_files.len() == 0 {
            return Err(ActualError::NoBudget);
        } else if live_files.len() == 1 {
            live_files[0].clone()
        } else {
            return Err(ActualError::AmbiguousBudget { names: collect_names(&live_files) });
        },
    };
    if chosen.encrypt_key_id.is_some() {
        return Err(ActualError::Encrypted { name: chosen.name });
    }
    Ok(chosen)
}

fn keep_live(files: &Vec<UserFile>) -> (r: Vec<UserFile>)
    ensures
        r@ == live(files@),
{
    let mut out: Vec<UserFile> = Vec::new();
    let mut i: usize = 0;
    proof {
        reveal(Seq::filter);
        assert(files@.take(0) =~= Seq::empty());
        assert(live(files@.take(0)) =~= out@);
    }
    while i < files.len()
        invariant
            i <= files@.len(),
            out@ == live(files@.take(i as int)),
        decreases files@.len() - i,
    {
        proof {
            reveal(Seq::filter);
            assert(files@.take(i + 1).drop_last() =~= files@.take(i as int));
            assert(files@.take(i + 1).last() == files@[i as int]);
        }
        if files[i].deleted == 0 {
            out.push(files[i].clone());
        }
        i += 1;
    }
    assert(files@.take(i as int) =~= files@);
    out
}

fn find_in_group(files: &Vec<UserFile>, id: &str) -> (r: Option<UserFile>)
    ensures
        r == in_group(files@, id@),
{
    let mut i: usize = 0;
    assert(files@.skip(0) =~= files@);
    while i < files.len()
        invariant
            i <= files@.len(),
            in_group(files@, id@) == in_group(files@.skip(i as int), id@),
        decreases files@.len() - i,
    {
        assert(files@.skip(i as int)[0] == files@[i as int]);
        assert(files@.skip(i as int).skip(1) =~= files@.skip(i + 1));
        if let Some(group) = &files[i].group_id {
            if same_text(group.as_str(), id) {
                return Some(files[i].clone());
            }
        }
        i += 1;
    }
    None
}

fn collect_group_ids(files: &Vec<UserFile>) -> (r: Vec<String>)
    ensures
        texts(r@) == group_ids(files@),
{
    let mut out: Vec<String> = Vec::new();
    let mut i: usize = 0;
    assert(files@.take(0) =~= Seq::empty());
    assert(texts(out@) =~= Seq::empty());
    while i < files.len()
        invariant
            i <= files@.len(),
            texts(out@) == group_ids(files@.take(i as int)),
        decreases files@.len() - i,
    {
        assert(files@.take(i + 1).drop_last() =~= files@.take(i as int));
        assert(files@.take(i + 1).last() == files@[i as int]);
        if let Some(id) = &files[i].group_id {
            let ghost earlier = texts(out@);
            out.push(id.clone());
            assert(texts(out@) =~= earlier.push(id@));
        }
        i += 1;
    }
    assert(files@.take(i as int) =~= files@);
    out
}

fn collect_names(files: &Vec<UserFile>) -> (r: Vec<String>)
    ensures
        texts(r@) == files@.map_values(|f: UserFile| f.name@),
{
    let mut out: Vec<String> = Vec::new();
    let ghost wanted = files@.map_values(|f: UserFile| f.name@);
    let mut i: usize = 0;
    while i < files.len()
        invariant
            i <= files@.len(),
            wanted == files@.map_values(|f: UserFile| f.name@),
            texts(out@) == wanted.take(i as int),
        decreases files@.len() - i,
    {
        let ghost earlier = texts(out@);
        out.push(files[i].name.clone());
        assert(texts(out@) =~= earlier.push(files@[i as int].name@));
        i += 1;
        assert(texts(out@) =~= wanted.take(i as int));
    }
    assert(texts(out@) =~= wanted);
    out
}

// ----------------------------------------------------------------- laws -----
/// A request carries no edits, whatever it asks for: what can be read from its
/// bytes is which budget it is about and where to go on, and nothing under the
/// tag of edits. Nothing is pushed back.
pub proof fn requests_carry_no_edits(file_id: Seq<char>, group_id: Seq<char>, since: Seq<char>)
    requires
        short(file_id),
        short(group_id),
        short(since),
    ensures
        asking(file_id, group_id, since).messages.len() == 0,
        texts_in(request_bytes(asking(file_id, group_id, since))) == Some(
            tagged(2, file_id) + tagged(3, group_id) + tagged(6, since),
        ),
        forall|i: int|
            0 <= i < (tagged(2, file_id) + tagged(3, group_id) + tagged(6, since)).len() ==> (
            #[trigger] (tagged(2, file_id) + tagged(3, group_id) + tagged(6, since))[i]).0 != 1,
{
    let r = asking(file_id, group_id, since);
    assert(short(r.key_id));
    a_request_without_edits_holds_only_its_texts(r);
    assert(tagged(2, file_id) + tagged(3, group_id) + tagged(5, r.key_id) + tagged(6, since)
        =~= tagged(2, file_id) + tagged(3, group_id) + tagged(6, since));
}

/// A budget that is chosen is one that the server listed, live and not
/// encrypted, and it has the sync id where one was given.
pub proof fn what_is_chosen_can_be_used(
    files: Seq<UserFile>,
    sync_id: Option<Seq<char>>,
    chosen: UserFile,
)
    requires
        selects(files, sync_id, Ok(chosen)),
    ensures
        files.contains(chosen),
        chosen.deleted == 0,
        chosen.encrypt_key_id is None,
        sync_id is Some ==> text_if_any(chosen.group_id) == sync_id,
{
    let kept = live(files);
    if let Some(id) = sync_id {
        found_in_group(kept, id);
    }
    assert(kept.contains(chosen));
    files.lemma_filter_contains_rev(|f: UserFile| f.deleted == 0, chosen);
    let i = choose|i: int| 0 <= i < kept.len() && kept[i] == chosen;
    files.lemma_filter_pred(|f: UserFile| f.deleted == 0, i);
}

proof fn found_in_group(files: Seq<UserFile>, id: Seq<char>)
    ensures
        in_group(files, id) matches Some(f) ==> files.contains(f) && text_if_any(f.group_id)
            == Some(id),
    decreases files.len(),
{
    if files.len() > 0 && text_if_any(files[0].group_id) != Some(id) {
        found_in_group(files.skip(1), id);
        if let Some(f) = in_group(files.skip(1), id) {
            let i = choose|i: int| 0 <= i < files.skip(1).len() && files.skip(1)[i] == f;
            assert(files[i + 1] == f);
        }
    }
}

/// Deleted budgets make no difference.
pub proof fn deleted_budgets_are_ignored(
    files: Seq<UserFile>,
    gone: UserFile,
    at: int,
    sync_id: Option<Seq<char>>,
    r: Result<UserFile, ActualError>,
)
    requires
        0 <= at <= files.len(),
        gone.deleted != 0,
    ensures
        selects(files.insert(at, gone), sync_id, r) <==> selects(files, sync_id, r),
{
    live_without(files, gone, at);
}

proof fn live_without(files: Seq<UserFile>, gone: UserFile, at: int)
    requires
        0 <= at <= files.len(),
        gone.deleted != 0,
    ensures
        live(files.insert(at, gone)) == live(files),
    decreases files.len(),
{
    reveal(Seq::filter);
    let more = files.insert(at, gone);
    if at == files.len() {
        assert(more.drop_last() =~= files);
    } else {
        assert(more.drop_last() =~= files.drop_last().insert(at, gone));
        live_without(files.drop_last(), gone, at);
    }
}

/// A budget is live and has this group id.
pub open spec fn goes_by(file: UserFile, id: Seq<char>) -> bool {
    file.deleted == 0 && (file.group_id matches Some(own) && own@ == id)
}

/// What comes of a budget that was found: the budget, or where it is encrypted
/// the refusal that names it.
pub open spec fn comes_of(file: UserFile, r: Result<UserFile, ActualError>) -> bool {
    match file.encrypt_key_id {
        None => r == Ok::<UserFile, ActualError>(file),
        Some(_) => r matches Err(ActualError::Encrypted { name }) && name@ == file.name@,
    }
}

/// With a sync id the first live budget that goes by it is the one, and where
/// there is none the answer tells the group ids of all that are live.
pub proof fn a_sync_id_finds_its_budget(
    files: Seq<UserFile>,
    id: Seq<char>,
    r: Result<UserFile, ActualError>,
)
    requires
        selects(files, Some(id), r),
    ensures
        forall|i: int|
            0 <= i < files.len() && goes_by(#[trigger] files[i], id) && (forall|j: int|
                0 <= j < i ==> !goes_by(#[trigger] files[j], id)) ==> comes_of(files[i], r),
        (forall|i: int| 0 <= i < files.len() ==> !goes_by(#[trigger] files[i], id)) ==> {
            &&& r matches Err(ActualError::BudgetNotFound { sync_id, available })
            &&& sync_id@ == id
            &&& forall|other: Seq<char>|
                #[trigger] texts(available@).contains(other) <==> exists|i: int|
                    0 <= i < files.len() && goes_by(#[trigger] files[i], other)
        },
{
    let kept = live(files);
    first_in_group(kept, id);
    assert forall|i: int|
        0 <= i < files.len() && goes_by(#[trigger] files[i], id) && (forall|j: int|
            0 <= j < i ==> !goes_by(#[trigger] files[j], id)) implies comes_of(files[i], r) by {
        let k = live_in_order(files, i);
        assert forall|j: int| 0 <= j < k implies text_if_any((#[trigger] kept[j]).group_id) != Some(
            id,
        ) by {
            let before = files.take(i);
            assert(kept[j] == kept.take(k)[j]);
            assert(live(before).contains(live(before)[j]));
            before.lemma_filter_contains_rev(|f: UserFile| f.deleted == 0, live(before)[j]);
            before.lemma_filter_pred(|f: UserFile| f.deleted == 0, j);
            let at = choose|at: int| 0 <= at < before.len() && before[at] == live(before)[j];
            assert(!goes_by(files[at], id));
        }
        assert(in_group(kept, id) == Some(files[i]));
    }
    if forall|i: int| 0 <= i < files.len() ==> !goes_by(#[trigger] files[i], id) {
        if let Some(f) = in_group(kept, id) {
            found_in_group(kept, id);
            files.lemma_filter_contains_rev(|f: UserFile| f.deleted == 0, f);
            let k = choose|k: int| 0 <= k < kept.len() && kept[k] == f;
            files.lemma_filter_pred(|f: UserFile| f.deleted == 0, k);
            let at = choose|at: int| 0 <= at < files.len() && files[at] == f;
            assert(goes_by(files[at], id));
        }
        let available = r->Err_0->available;
        assert forall|other: Seq<char>|
            #[trigger] texts(available@).contains(other) <==> exists|i: int|
                0 <= i < files.len() && goes_by(#[trigger] files[i], other) by {
            ids_are_of_files(kept, other);
            if exists|i: int| 0 <= i < files.len() && goes_by(#[trigger] files[i], other) {
                let i = choose|i: int| 0 <= i < files.len() && goes_by(#[trigger] files[i], other);
                files.lemma_filter_contains(|f: UserFile| f.deleted == 0, i);
                let k = choose|k: int| 0 <= k < kept.len() && kept[k] == files[i];
                assert(text_if_any(kept[k].group_id) == Some(other));
            }
            if group_ids(kept).contains(other) {
                let k = choose|k: int|
                    0 <= k < kept.len() && text_if_any((#[trigger] kept[k]).group_id) == Some(
                        other,
                    );
                assert(kept.contains(kept[k]));
                files.lemma_filter_contains_rev(|f: UserFile| f.deleted == 0, kept[k]);
                files.lemma_filter_pred(|f: UserFile| f.deleted == 0, k);
                let at = choose|at: int| 0 <= at < files.len() && files[at] == kept[k];
                assert(goes_by(files[at], other));
            }
        }
    }
}

/// Without a sync id the only live budget is the one. Where there is none that
/// is said, and where there are more the answer tells their names.
pub proof fn an_only_budget_needs_no_sync_id(
    files: Seq<UserFile>,
    r: Result<UserFile, ActualError>,
)
    requires
        selects(files, None, r),
    ensures
        forall|i: int|
            0 <= i < files.len() && (#[trigger] files[i]).deleted == 0 && (forall|j: int|
                0 <= j < files.len() && j != i ==> (#[trigger] files[j]).deleted != 0) ==> comes_of(
                files[i],
                r,
            ),
        (forall|i: int| 0 <= i < files.len() ==> (#[trigger] files[i]).deleted != 0) ==> r matches Err(
            ActualError::NoBudget,
        ),
        forall|i: int, j: int|
            0 <= i < j < files.len() && (#[trigger] files[i]).deleted == 0 && (
            #[trigger] files[j]).deleted == 0 ==> {
                &&& r matches Err(ActualError::AmbiguousBudget { names })
                &&& forall|k: int|
                    0 <= k < files.len() && (#[trigger] files[k]).deleted == 0 ==> texts(
                        names@,
                    ).contains(files[k].name@)
                &&& forall|name: Seq<char>| #[trigger]
                    texts(names@).contains(name) ==> exists|k: int|
                        0 <= k < files.len() && (#[trigger] files[k]).deleted == 0
                            && files[k].name@ == name
            },
{
    let kept = live(files);
    let pred = |f: UserFile| f.deleted == 0;
    assert forall|i: int|
        0 <= i < files.len() && (#[trigger] files[i]).deleted == 0 && (forall|j: int|
            0 <= j < files.len() && j != i ==> (#[trigger] files[j]).deleted != 0) implies comes_of(
        files[i],
        r,
    ) by {
        nothing_live(files.take(i));
        nothing_live(files.skip(i + 1));
        let (before, one, after) = (files.take(i), seq![files[i]], files.skip(i + 1));
        assert(files =~= before + one + after);
        Seq::filter_distributes_over_add(before + one, after, pred);
        Seq::filter_distributes_over_add(before, one, pred);
        reveal_with_fuel(Seq::filter, 2);
        assert(one.drop_last() =~= Seq::empty());
        assert(one.filter(pred) =~= one);
        assert(kept =~= one);
    }
    if forall|i: int| 0 <= i < files.len() ==> (#[trigger] files[i]).deleted != 0 {
        nothing_live(files);
    }
    assert forall|i: int, j: int|
        0 <= i < j < files.len() && (#[trigger] files[i]).deleted == 0 && (
        #[trigger] files[j]).deleted == 0 implies {
            &&& r matches Err(ActualError::AmbiguousBudget { names })
            &&& forall|k: int|
                0 <= k < files.len() && (#[trigger] files[k]).deleted == 0 ==> texts(
                    names@,
                ).contains(files[k].name@)
            &&& forall|name: Seq<char>| #[trigger]
                texts(names@).contains(name) ==> exists|k: int|
                    0 <= k < files.len() && (#[trigger] files[k]).deleted == 0 && files[k].name@
                        == name
        } by {
        let a = live_in_order(files, i);
        let b = live_in_order(files, j);
        live_grows(files, i, j);
        assert(a < b < kept.len());
        let names = r->Err_0->names;
        let called = kept.map_values(|f: UserFile| f.name@);
        assert(texts(names@) == called);
        assert forall|k: int| 0 <= k < files.len() && (#[trigger] files[k]).deleted
            == 0 implies texts(names@).contains(files[k].name@) by {
            let at = live_in_order(files, k);
            assert(called[at] == files[k].name@);
        }
        assert forall|name: Seq<char>| #[trigger] texts(names@).contains(name) implies exists|k: int|
            0 <= k < files.len() && (#[trigger] files[k]).deleted == 0 && files[k].name@ == name by {
            let at = choose|at: int| 0 <= at < called.len() && called[at] == name;
            assert(kept.contains(kept[at]));
            files.lemma_filter_contains_rev(pred, kept[at]);
            files.lemma_filter_pred(pred, at);
            let k = choose|k: int| 0 <= k < files.len() && files[k] == kept[at];
            assert(files[k].deleted == 0 && files[k].name@ == name);
        }
    }
}

proof fn nothing_live(files: Seq<UserFile>)
    requires
        forall|i: int| 0 <= i < files.len() ==> (#[trigger] files[i]).deleted != 0,
    ensures
        live(files) == Seq::<UserFile>::empty(),
{
    let kept = live(files);
    if kept.len() > 0 {
        assert(kept.contains(kept[0]));
        files.lemma_filter_contains_rev(|f: UserFile| f.deleted == 0, kept[0]);
        files.lemma_filter_pred(|f: UserFile| f.deleted == 0, 0);
        let at = choose|at: int| 0 <= at < files.len() && files[at] == kept[0];
        assert(files[at].deleted != 0);
    }
    assert(kept =~= Seq::empty());
}

proof fn live_grows(files: Seq<UserFile>, i: int, j: int)
    requires
        0 <= i < j < files.len(),
        files[i].deleted == 0,
    ensures
        live(files.take(i)).len() < live(files.take(j)).len(),
{
    let start = files.take(j);
    assert(start.take(i) =~= files.take(i));
    let k = live_in_order(start, i);
}

/// Where a live budget stands among those that are live.
proof fn live_in_order(files: Seq<UserFile>, i: int) -> (k: int)
    requires
        0 <= i < files.len(),
        files[i].deleted == 0,
    ensures
        k == live(files.take(i)).len(),
        0 <= k < live(files).len(),
        live(files)[k] == files[i],
        live(files).take(k) == live(files.take(i)),
{
    let pred = |f: UserFile| f.deleted == 0;
    let (before, one, after) = (files.take(i), seq![files[i]], files.skip(i + 1));
    assert(files =~= before + one + after);
    Seq::filter_distributes_over_add(before + one, after, pred);
    Seq::filter_distributes_over_add(before, one, pred);
    reveal_with_fuel(Seq::filter, 2);
    assert(one.drop_last() =~= Seq::empty());
    assert(one.filter(pred) =~= one);
    let k = live(before).len() as int;
    assert(live(files).take(k) =~= live(before));
    k
}

proof fn first_in_group(files: Seq<UserFile>, id: Seq<char>)
    ensures
        forall|k: int|
            0 <= k < files.len() && text_if_any((#[trigger] files[k]).group_id) == Some(id) && (
            forall|j: int|
                0 <= j < k ==> text_if_any((#[trigger] files[j]).group_id) != Some(id)) ==> in_group(
                files,
                id,
            ) == Some(files[k]),
    decreases files.len(),
{
    if files.len() > 0 {
        let rest = files.skip(1);
        first_in_group(rest, id);
        assert forall|k: int|
            0 <= k < files.len() && text_if_any((#[trigger] files[k]).group_id) == Some(id) && (
            forall|j: int|
                0 <= j < k ==> text_if_any((#[trigger] files[j]).group_id) != Some(
                    id,
                )) implies in_group(files, id) == Some(files[k]) by {
            if k > 0 {
                assert(text_if_any(files[0].group_id) != Some(id));
                assert(rest[k - 1] == files[k]);
                assert forall|j: int| 0 <= j < k - 1 implies text_if_any(
                    (#[trigger] rest[j]).group_id,
                ) != Some(id) by {
                    assert(rest[j] == files[j + 1]);
                }
            }
        }
    }
}

proof fn ids_are_of_files(files: Seq<UserFile>, id: Seq<char>)
    ensures
        group_ids(files).contains(id) <==> exists|k: int|
            0 <= k < files.len() && text_if_any((#[trigger] files[k]).group_id) == Some(id),
    decreases files.len(),
{
    if files.len() > 0 {
        let before = files.drop_last();
        ids_are_of_files(before, id);
        let earlier = group_ids(before);
        if exists|k: int|
            0 <= k < files.len() && text_if_any((#[trigger] files[k]).group_id) == Some(id) {
            let k = choose|k: int|
                0 <= k < files.len() && text_if_any((#[trigger] files[k]).group_id) == Some(id);
            if k < before.len() {
                assert(before[k] == files[k]);
                let at = choose|at: int| 0 <= at < earlier.len() && earlier[at] == id;
                assert(group_ids(files)[at] == id);
            } else {
                assert(group_ids(files)[earlier.len() as int] == id);
            }
        }
        if group_ids(files).contains(id) {
            let at = choose|at: int| 0 <= at < group_ids(files).len() && group_ids(files)[at] == id;
            if at < earlier.len() {
                assert(earlier[at] == id);
                assert(earlier.contains(id));
                let k = choose|k: int|
                    0 <= k < before.len() && text_if_any((#[trigger] before[k]).group_id) == Some(
                        id,
                    );
                assert(files[k] == before[k]);
            } else {
                assert(text_if_any(files[files.len() - 1].group_id) == Some(id));
            }
        }
    } else {
        assert(!group_ids(files).contains(id));
    }
}

/// A success is a success whatever the status says. A refusal is about who is
/// asking where the status or the reason says so, and otherwise tells both.
pub proof fn refusals_tell_their_reason<T>(
    endpoint: &'static str,
    status: u16,
    body: Result<Envelope<T>, String>,
    r: Result<T, ActualError>,
)
    requires
        call_ensures(json_outcome::<T>, (endpoint, status, body), r),
    ensures
        body matches Ok(Envelope::Success { data }) ==> r == Ok::<T, ActualError>(data),
        body matches Ok(Envelope::Failure { reason, .. }) ==> {
            &&& status == 401 || reason@ == "invalid-password"@ ==> (r matches Err(
                ActualError::Auth(told),
            ) && told == reason)
            &&& status != 401 && reason@ != "invalid-password"@ ==> (r matches Err(
                ActualError::Api { status: code, reason: told },
            ) && code == status && told == reason)
        },
        body matches Err(cause) ==> (r matches Err(
            ActualError::Decode { endpoint: at, cause: told },
        ) && at == endpoint && told == cause),
{
}

/// On a binary route a status of success is one from 200 to 299, and a refusal
/// tells its reason, or where it gives none its body.
pub proof fn binary_refusals_tell_their_reason(
    status: u16,
    body: String,
    parsed: Option<ApiError>,
    ok: bool,
    r: ActualError,
)
    requires
        call_ensures(succeeded, (status,), ok),
        call_ensures(binary_refusal, (status, body, parsed), r),
    ensures
        ok <==> status / 100 == 2,
        match parsed {
            Some(e) => if status == 401 {
                r matches ActualError::Auth(told) && told == e.reason
            } else {
                r matches ActualError::Api { status: code, reason } && code == status && reason
                    == e.reason
            },
            None => r matches ActualError::Api { status: code, reason } && code == status && reason
                == body,
        },
{
}

/// Requests go to the endpoints of an Actual server, behind its address.
pub proof fn requests_go_to_the_endpoints(base: &str, endpoint: &str, address: String)
    requires
        call_ensures(url, (base, endpoint), address),
    ensures
        address@ == base@ + endpoint@,
        LOGIN@ == "/account/login"@,
        LIST_FILES@ == "/sync/list-user-files"@,
        DOWNLOAD@ == "/sync/download-user-file"@,
        SYNC@ == "/sync/sync"@,
        ACTUAL_TOKEN_HEADER@ == "X-ACTUAL-TOKEN"@,
        ACTUAL_FILE_ID_HEADER@ == "X-ACTUAL-FILE-ID"@,
{
}

/// The token of a login is what the next requests carry, and a login without one
/// has failed.
pub proof fn a_login_gives_a_token(token: Option<String>, r: Result<String, ActualError>)
    requires
        call_ensures(token_after_login, (token,), r),
    ensures
        token matches Some(t) ==> r == Ok::<String, ActualError>(t),
        token is None ==> (r matches Err(e) && e is Auth),
{
}

/// A budget is selected among those that the server lists: by its sync id, or
/// because it is the only one that is live.
pub proof fn a_budget_is_selected_from_the_list(
    files: Vec<UserFile>,
    id: Option<&str>,
    chosen: UserFile,
)
    requires
        call_ensures(select, (files, id), Ok(chosen)),
    ensures
        files@.contains(chosen),
        chosen.deleted == 0,
        chosen.encrypt_key_id is None,
        id matches Some(wanted) ==> goes_by(chosen, wanted@),
        id is None ==> forall|i: int|
            0 <= i < files@.len() && (#[trigger] files@[i]).deleted == 0 ==> files@[i] == chosen,
{
    what_is_chosen_can_be_used(files@, chars_if_any(id), chosen);
    if id is None {
        assert forall|i: int|
            0 <= i < files@.len() && (#[trigger] files@[i]).deleted == 0 implies files@[i]
            == chosen by {
            let k = live_in_order(files@, i);
        }
    }
}

/// A budget that is not encrypted is selected where it is the first live one with
/// the sync id, or the only live one.
pub proof fn the_budget_that_is_meant_is_selected(
    files: Vec<UserFile>,
    id: Option<&str>,
    i: int,
    r: Result<UserFile, ActualError>,
)
    requires
        call_ensures(select, (files, id), r),
        0 <= i < files@.len(),
        files@[i].deleted == 0,
        files@[i].encrypt_key_id is None,
        match id {
            Some(wanted) => goes_by(files@[i], wanted@) && forall|j: int|
                0 <= j < i ==> !goes_by(#[trigger] files@[j], wanted@),
            None => forall|j: int|
                0 <= j < files@.len() && j != i ==> (#[trigger] files@[j]).deleted != 0,
        },
    ensures
        r == Ok::<UserFile, ActualError>(files@[i]),
{
    match id {
        Some(wanted) => {
            a_sync_id_finds_its_budget(files@, wanted@, r);
            assert(comes_of(files@[i], r));
        },
        None => {
            an_only_budget_needs_no_sync_id(files@, r);
            assert(comes_of(files@[i], r));
        },
    }
}

/// A request asks for what happened to one budget after a clock, and says nothing
/// else.
pub proof fn a_request_asks_for_what_follows_a_clock(
    file_id: &str,
    group_id: &str,
    since: &str,
    body: Vec<u8>,
)
    requires
        call_ensures(sync_request, (file_id, group_id, since), body),
        short(file_id@),
        short(group_id@),
        short(since@),
    ensures
        texts_in(body@) == Some(tagged(2, file_id@) + tagged(3, group_id@) + tagged(6, since@)),
{
    requests_carry_no_edits(file_id@, group_id@, since@);
}

} // verus!
