use vstd::prelude::*;
use crate::filter::{Filter, FilterMode, eligible, has_marker, mode_of};
use crate::login::{LocalView, RemoteView};
use crate::reconcile::{
    JobView,
    delete_plan,
    has_same_login,
    is_first_match,
    same_key,
    same_login,
    upload_job,
    upload_plan,
};
use crate::credential::{EntryView, Operation, markers, run_plan};

verus! {

/// An unmarked login takes part in uploads with no markers at all or with only
/// `Exclude` markers about, and not with only `Include` markers about.
pub proof fn lemma_unmarked_eligibility()
    ensures
        eligible(FilterMode::NoFilter, None),
        eligible(FilterMode::ExcludeOnly, None),
        !eligible(FilterMode::IncludeOnly, None),
{
}

/// A login marked `Include` takes part in uploads under every mode but the
/// conflicting one.
pub proof fn lemma_included_eligibility(mode: FilterMode)
    requires
        mode != FilterMode::Conflicting,
    ensures
        eligible(mode, Some(Filter::Include)),
{
}

/// A login marked `Exclude` never takes part in uploads once `Exclude` markers
/// decide the mode.
pub proof fn lemma_excluded_eligibility()
    ensures
        !eligible(FilterMode::ExcludeOnly, Some(Filter::Exclude)),
{
}

/// An eligible local login whose username and hostname no remote login shares
/// yields exactly one create job carrying its username, password and hostname,
/// and no delete job.
pub proof fn lemma_absent_login_is_created(l: LocalView, mode: FilterMode, remote: Seq<RemoteView>)
    requires
        eligible(mode, l.filter),
        forall|i: int| 0 <= i < remote.len() ==> !same_key(#[trigger] remote[i], l),
    ensures
        upload_plan(seq![l], mode, remote) == seq![
            JobView::Create { username: l.username, password: l.password, hostname: l.hostname },
        ],
        delete_plan(remote, seq![l]).len() == 0,
{
    let one = seq![l];
    assert(one.drop_last() =~= Seq::<LocalView>::empty());
    assert(upload_plan(one.drop_last(), mode, remote) == Seq::<JobView>::empty());
    assert(!exists|i: int| is_first_match(remote, l, i));
    lemma_no_equal_remote(remote, l);
}

proof fn lemma_no_equal_remote(remote: Seq<RemoteView>, l: LocalView)
    requires
        forall|i: int| 0 <= i < remote.len() ==> !same_key(#[trigger] remote[i], l),
    ensures
        delete_plan(remote, seq![l]).len() == 0,
    decreases remote.len(),
{
    if remote.len() > 0 {
        lemma_no_equal_remote(remote.drop_last(), l);
        assert(!same_key(remote[remote.len() - 1], l));
        assert(!has_same_login(remote.last(), seq![l])) by {
            if has_same_login(remote.last(), seq![l]) {
                let j = choose|j: int| 0 <= j < 1 && same_login(remote.last(), #[trigger] seq![l][j]);
                assert(seq![l][j] == l);
            }
        }
    }
}

/// A local login whose first remote match on username and hostname holds the same
/// password yields no job.
pub proof fn lemma_equal_login_is_left(
    l: LocalView,
    mode: FilterMode,
    remote: Seq<RemoteView>,
    i: int,
)
    requires
        is_first_match(remote, l, i),
        remote[i].password == l.password,
    ensures
        upload_job(l, remote) is None,
        upload_plan(seq![l], mode, remote).len() == 0,
{
    let k = choose|k: int| is_first_match(remote, l, k);
    crate::reconcile::lemma_first_match_unique(remote, l, i, k);
    assert(seq![l].drop_last() =~= Seq::<LocalView>::empty());
    assert(upload_plan(seq![l].drop_last(), mode, remote) == Seq::<JobView>::empty());
    assert(seq![l].last() == l);
}

/// An eligible local login whose first remote match on username and hostname holds
/// another password yields exactly one update job, keeping the remote id and
/// carrying the local password.
pub proof fn lemma_changed_login_is_updated(
    l: LocalView,
    mode: FilterMode,
    remote: Seq<RemoteView>,
    i: int,
)
    requires
        eligible(mode, l.filter),
        is_first_match(remote, l, i),
        remote[i].password != l.password,
    ensures
        upload_plan(seq![l], mode, remote) == seq![
            JobView::Update { id: remote[i].id, password: l.password },
        ],
{
    let k = choose|k: int| is_first_match(remote, l, k);
    crate::reconcile::lemma_first_match_unique(remote, l, i, k);
    assert(seq![l].drop_last() =~= Seq::<LocalView>::empty());
    assert(upload_plan(seq![l].drop_last(), mode, remote) == Seq::<JobView>::empty());
}

/// A remote login is deleted exactly when some local login equals it in username,
/// password and hostname: one whose matching local login holds another password is
/// left alone.
pub proof fn lemma_delete_needs_equal_login(r: RemoteView, locals: Seq<LocalView>)
    ensures
        has_same_login(r, locals) ==> delete_plan(seq![r], locals) == seq![
            JobView::Delete { id: r.id },
        ],
        (forall|j: int|
            0 <= j < locals.len() && same_key(r, #[trigger] locals[j]) ==> locals[j].password
                != r.password) ==> delete_plan(seq![r], locals).len() == 0,
{
    assert(seq![r].drop_last() =~= Seq::<RemoteView>::empty());
    assert(delete_plan(seq![r].drop_last(), locals) == Seq::<JobView>::empty());
}

proof fn lemma_conflicting_upload_is_empty(locals: Seq<LocalView>, remote: Seq<RemoteView>)
    ensures
        upload_plan(locals, FilterMode::Conflicting, remote).len() == 0,
    decreases locals.len(),
{
    if locals.len() > 0 {
        lemma_conflicting_upload_is_empty(locals.drop_last(), remote);
    }
}

/// When one entry is marked `Include` and another `Exclude`, a run yields no job,
/// whichever reconciler it performs, and the upload reconciler yields none under
/// the conflicting mode for any logins.
pub proof fn lemma_conflict_yields_nothing(
    es: Seq<EntryView>,
    cred: int,
    remote: Seq<RemoteView>,
    op: Operation,
    a: int,
    b: int,
    locals: Seq<LocalView>,
)
    requires
        0 <= a < es.len(),
        0 <= b < es.len(),
        es[a].login.filter == Some(Filter::Include),
        es[b].login.filter == Some(Filter::Exclude),
    ensures
        mode_of(markers(es)) == FilterMode::Conflicting,
        run_plan(es, cred, remote, op).len() == 0,
        upload_plan(locals, FilterMode::Conflicting, remote).len() == 0,
{
    assert(markers(es)[a] == Some(Filter::Include));
    assert(markers(es)[b] == Some(Filter::Exclude));
    assert(has_marker(markers(es), Filter::Include));
    assert(has_marker(markers(es), Filter::Exclude));
    lemma_conflicting_upload_is_empty(locals, remote);
}

} // verus!
