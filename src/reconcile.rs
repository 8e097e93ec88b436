use vstd::prelude::*;
use crate::filter::{FilterMode, eligible};
use crate::login::{LocalLogin, LocalView, RemoteLogin, RemoteView};

verus! {

/// A change to push to the sync service.
#[derive(Debug, PartialEq, Eq)]
pub enum Job {
    Create { username: String, password: String, hostname: String },
    Update { id: String, password: String },
    Delete { id: String },
}

/// The value of a `Job`.
pub enum JobView {
    Create { username: Seq<char>, password: Seq<char>, hostname: Seq<char> },
    Update { id: Seq<char>, password: Seq<char> },
    Delete { id: Seq<char> },
}

impl View for Job {
    type V = JobView;

    open spec fn view(&self) -> JobView {
        match self {
            Job::Create { username, password, hostname } => JobView::Create {
                username: username@,
                password: password@,
                hostname: hostname@,
            },
            Job::Update { id, password } => JobView::Update { id: id@, password: password@ },
            Job::Delete { id } => JobView::Delete { id: id@ },
        }
    }
}

pub open spec fn locals_view(v: Seq<LocalLogin>) -> Seq<LocalView> {
    v.map_values(|l: LocalLogin| l@)
}

pub open spec fn remotes_view(v: Seq<RemoteLogin>) -> Seq<RemoteView> {
    v.map_values(|r: RemoteLogin| r@)
}

pub open spec fn jobs_view(v: Seq<Job>) -> Seq<JobView> {
    v.map_values(|j: Job| j@)
}

pub open spec fn opt_job(j: Option<Job>) -> Option<JobView> {
    match j {
        Some(j) => Some(j@),
        None => None,
    }
}

/// A remote login that stands for the same account and site as a local one.
pub open spec fn same_key(r: RemoteView, l: LocalView) -> bool {
    r.username == l.username && r.hostname == l.hostname
}

/// `i` is the first remote login with the key of `l`.
pub open spec fn is_first_match(remote: Seq<RemoteView>, l: LocalView, i: int) -> bool {
    0 <= i < remote.len() && same_key(remote[i], l) && forall|j: int|
        0 <= j < i ==> !same_key(#[trigger] remote[j], l)
}

/// The job that brings one local login to the service: a create where no remote
/// login has its key, nothing where the first that has it holds the same password,
/// else an update of that one.
pub open spec fn upload_job(l: LocalView, remote: Seq<RemoteView>) -> Option<JobView> {
    if exists|i: int| is_first_match(remote, l, i) {
        let i = choose|i: int| is_first_match(remote, l, i);
        if remote[i].password == l.password {
            None
        } else {
            Some(JobView::Update { id: remote[i].id, password: l.password })
        }
    } else {
        Some(JobView::Create { username: l.username, password: l.password, hostname: l.hostname })
    }
}

/// The jobs for the local logins eligible under `mode`, in their order.
pub open spec fn upload_plan(locals: Seq<LocalView>, mode: FilterMode, remote: Seq<RemoteView>) -> Seq<
    JobView,
>
    decreases locals.len(),
{
    if locals.len() == 0 {
        seq![]
    } else {
        let rest = upload_plan(locals.drop_last(), mode, remote);
        if eligible(mode, locals.last().filter) {
            match upload_job(locals.last(), remote) {
                Some(j) => rest.push(j),
                None => rest,
            }
        } else {
            rest
        }
    }
}

/// A remote login equal to a local one in username, password and hostname.
pub open spec fn same_login(r: RemoteView, l: LocalView) -> bool {
    r.username == l.username && r.password == l.password && r.hostname == l.hostname
}

pub open spec fn has_same_login(r: RemoteView, locals: Seq<LocalView>) -> bool {
    exists|j: int| 0 <= j < locals.len() && same_login(r, #[trigger] locals[j])
}

/// A delete job for each remote login that some local login equals, in remote order.
pub open spec fn delete_plan(remote: Seq<RemoteView>, locals: Seq<LocalView>) -> Seq<JobView>
    decreases remote.len(),
{
    if remote.len() == 0 {
        seq![]
    } else {
        let rest = delete_plan(remote.drop_last(), locals);
        if has_same_login(remote.last(), locals) {
            rest.push(JobView::Delete { id: remote.last().id })
        } else {
            rest
        }
    }
}

pub proof fn lemma_first_match_unique(remote: Seq<RemoteView>, l: LocalView, i: int, k: int)
    requires
        is_first_match(remote, l, i),
        is_first_match(remote, l, k),
    ensures
        i == k,
{
    if i < k {
        assert(!same_key(remote[i], l));
    } else if k < i {
        assert(!same_key(remote[k], l));
    }
}

impl LocalLogin {
    /// The job that brings this login to the service, given the remote logins.
    pub fn to_job(&self, remote: &Vec<RemoteLogin>) -> (r: Option<Job>)
        ensures
            opt_job(r) == upload_job(self@, remotes_view(remote@)),
    {
        let ghost rv = remotes_view(remote@);
        let mut i: usize = 0;
        while i < remote.len()
            invariant
                i <= remote@.len(),
                rv == remotes_view(remote@),
                forall|j: int| 0 <= j < i ==> !same_key(#[trigger] rv[j], self@),
            decreases remote@.len() - i,
        {
            let r = &remote[i];
            if r.username == self.username && r.hostname == self.hostname {
                proof {
                    assert(is_first_match(rv, self@, i as int));
                    assert forall|k: int| is_first_match(rv, self@, k) implies k == i by {
                        lemma_first_match_unique(rv, self@, i as int, k);
                    }
                }
                if r.password == self.password {
                    return None;
                } else {
                    return Some(Job::Update { id: r.id.clone(), password: self.password.clone() });
                }
            }
            i = i + 1;
        }
        Some(
            Job::Create {
                username: self.username.clone(),
                password: self.password.clone(),
                hostname: self.hostname.clone(),
            },
        )
    }
}

/// The create and update jobs for the local logins eligible under `mode`.
pub fn upload_jobs(locals: &Vec<LocalLogin>, mode: FilterMode, remote: &Vec<RemoteLogin>) -> (r:
    Vec<Job>)
    ensures
        jobs_view(r@) == upload_plan(locals_view(locals@), mode, remotes_view(remote@)),
{
    let mut out: Vec<Job> = Vec::new();
    let mut i: usize = 0;
    while i < locals.len()
        invariant
            i <= locals@.len(),
            jobs_view(out@) == upload_plan(
                locals_view(locals@.subrange(0, i as int)),
                mode,
                remotes_view(remote@),
            ),
        decreases locals@.len() - i,
    {
        proof {
            assert(locals_view(locals@.subrange(0, i + 1)).drop_last() =~= locals_view(
                locals@.subrange(0, i as int),
            ));
        }
        let l = &locals[i];
        if mode.is_eligible(l.filter) {
            match l.to_job(remote) {
                Some(j) => {
                    let ghost before = out@;
                    let ghost jv = j@;
                    out.push(j);
                    assert(jobs_view(out@) =~= jobs_view(before).push(jv));
                },
                None => {},
            }
        }
        i = i + 1;
    }
    assert(locals@.subrange(0, i as int) == locals@);
    out
}

/// Whether some local login equals `r` in username, password and hostname.
fn has_same(r: &RemoteLogin, locals: &Vec<LocalLogin>) -> (b: bool)
    ensures
        b == has_same_login(r@, locals_view(locals@)),
{
    let ghost lv = locals_view(locals@);
    let mut j: usize = 0;
    while j < locals.len()
        invariant
            j <= locals@.len(),
            lv == locals_view(locals@),
            forall|k: int| 0 <= k < j ==> !same_login(r@, #[trigger] lv[k]),
        decreases locals@.len() - j,
    {
        let l = &locals[j];
        if l.username == r.username && l.password == r.password && l.hostname == r.hostname {
            assert(same_login(r@, lv[j as int]));
            return true;
        }
        j = j + 1;
    }
    false
}

/// The delete jobs for the remote logins that some local login equals.
pub fn delete_jobs(locals: &Vec<LocalLogin>, remote: &Vec<RemoteLogin>) -> (r: Vec<Job>)
    ensures
        jobs_view(r@) == delete_plan(remotes_view(remote@), locals_view(locals@)),
{
    let mut out: Vec<Job> = Vec::new();
    let mut i: usize = 0;
    while i < remote.len()
        invariant
            i <= remote@.len(),
            jobs_view(out@) == delete_plan(
                remotes_view(remote@.subrange(0, i as int)),
                locals_view(locals@),
            ),
        decreases remote@.len() - i,
    {
        proof {
            assert(remotes_view(remote@.subrange(0, i + 1)).drop_last() =~= remotes_view(
                remote@.subrange(0, i as int),
            ));
        }
        let r = &remote[i];
        if has_same(r, locals) {
            let ghost before = out@;
            out.push(Job::Delete { id: r.id.clone() });
            assert(jobs_view(out@) =~= jobs_view(before).push(JobView::Delete { id: r.id@ }));
        }
        i = i + 1;
    }
    assert(remote@.subrange(0, i as int) == remote@);
    out
}

} // verus!
