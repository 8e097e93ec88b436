use vstd::prelude::*;
use vstd::string::StringExecFns;
use crate::filter::{Filter, FilterMode, mode_of};
use crate::login::{LocalLogin, LocalView, RemoteLogin};
use crate::reconcile::{
    Job,
    JobView,
    delete_jobs,
    delete_plan,
    jobs_view,
    locals_view,
    remotes_view,
    upload_jobs,
    upload_plan,
};

verus! {

/// A login together with the name of the secret it was read from.
#[derive(Debug, PartialEq, Eq)]
pub struct StoreEntry {
    pub name: String,
    pub login: LocalLogin,
}

/// The value of a `StoreEntry`.
pub struct EntryView {
    pub name: Seq<char>,
    pub login: LocalView,
}

impl View for StoreEntry {
    type V = EntryView;

    open spec fn view(&self) -> EntryView {
        EntryView { name: self.name@, login: self.login@ }
    }
}

/// Why no sync-account credential could be chosen.
#[derive(Debug, PartialEq, Eq)]
pub enum CredentialError {
    /// No entry qualifies.
    NotFound,
    /// Several entries are hosted at the account host: their secret names and usernames.
    Ambiguous { candidates: Vec<(String, String)> },
}

/// Which reconciler a run performs.
#[derive(Clone, Copy, Debug, PartialEq, Eq, Structural)]
pub enum Operation {
    Upload,
    Delete,
}

pub open spec fn entries_view(v: Seq<StoreEntry>) -> Seq<EntryView> {
    v.map_values(|e: StoreEntry| e@)
}

pub open spec fn pairs_view(v: Seq<(String, String)>) -> Seq<(Seq<char>, Seq<char>)> {
    v.map_values(|p: (String, String)| (p.0@, p.1@))
}

pub open spec fn account_host() -> Seq<char> {
    "firefox.com"@
}

/// An entry hosted at the sync service's own account host.
pub open spec fn is_candidate(e: EntryView) -> bool {
    e.login.host == Some(account_host())
}

/// The secret names and usernames of the candidates, in order.
pub open spec fn candidate_pairs(es: Seq<EntryView>) -> Seq<(Seq<char>, Seq<char>)>
    decreases es.len(),
{
    if es.len() == 0 {
        seq![]
    } else {
        let rest = candidate_pairs(es.drop_last());
        if is_candidate(es.last()) {
            rest.push((es.last().name, es.last().login.username))
        } else {
            rest
        }
    }
}

/// `i` is the first entry whose secret is named `n`.
pub open spec fn is_first_named(es: Seq<EntryView>, n: Seq<char>, i: int) -> bool {
    0 <= i < es.len() && es[i].name == n && forall|j: int|
        0 <= j < i ==> (#[trigger] es[j]).name != n
}

/// The logins that the reconcilers see: all but the credential, which stays only
/// when it is itself marked `Include`.
pub open spec fn synced_set(es: Seq<EntryView>, cred: int) -> Seq<LocalView>
    decreases es.len(),
{
    if es.len() == 0 {
        seq![]
    } else {
        let rest = synced_set(es.drop_last(), cred);
        if es.len() - 1 == cred && es.last().login.filter != Some(Filter::Include) {
            rest
        } else {
            rest.push(es.last().login)
        }
    }
}

pub open spec fn markers(es: Seq<EntryView>) -> Seq<Option<Filter>> {
    es.map_values(|e: EntryView| e.login.filter)
}

/// The jobs of one run: none when the markers conflict, else those of the chosen
/// reconciler over the synced logins.
pub open spec fn run_plan(
    es: Seq<EntryView>,
    cred: int,
    remote: Seq<crate::login::RemoteView>,
    op: Operation,
) -> Seq<JobView> {
    let mode = mode_of(markers(es));
    if mode == FilterMode::Conflicting {
        seq![]
    } else {
        match op {
            Operation::Upload => upload_plan(synced_set(es, cred), mode, remote),
            Operation::Delete => delete_plan(remote, synced_set(es, cred)),
        }
    }
}

fn find_named(entries: &Vec<StoreEntry>, n: &String) -> (r: Option<usize>)
    ensures
        r is None ==> forall|j: int|
            0 <= j < entries@.len() ==> (#[trigger] entries_view(entries@)[j]).name != n@,
        r matches Some(i) ==> is_first_named(entries_view(entries@), n@, i as int),
{
    let ghost ev = entries_view(entries@);
    let mut i: usize = 0;
    while i < entries.len()
        invariant
            i <= entries@.len(),
            ev == entries_view(entries@),
            forall|j: int| 0 <= j < i ==> (#[trigger] ev[j]).name != n@,
        decreases entries@.len() - i,
    {
        if entries[i].name == *n {
            return Some(i);
        }
        i = i + 1;
    }
    None
}

/// Collects the candidates' names and usernames, and the index of the first one.
fn account_candidates(entries: &Vec<StoreEntry>) -> (r: (Vec<(String, String)>, Option<usize>))
    ensures
        pairs_view(r.0@) == candidate_pairs(entries_view(entries@)),
        r.1 is None <==> r.0@.len() == 0,
        r.1 is None ==> forall|j: int|
            0 <= j < entries@.len() ==> !is_candidate(#[trigger] entries_view(entries@)[j]),
        r.1 matches Some(f) ==> f < entries@.len() && is_candidate(entries_view(entries@)[f as int]),
        r.0@.len() == 1 ==> forall|j: int|
            0 <= j < entries@.len() && is_candidate(#[trigger] entries_view(entries@)[j]) ==> (r.1 is Some
                && r.1->0 == j),
{
    let ghost ev = entries_view(entries@);
    let fxa = String::from_str("firefox.com");
    proof {
        reveal_strlit("firefox.com");
    }
    let mut pairs: Vec<(String, String)> = Vec::new();
    let mut first: Option<usize> = None;
    let mut i: usize = 0;
    while i < entries.len()
        invariant
            i <= entries@.len(),
            ev == entries_view(entries@),
            fxa@ == account_host(),
            pairs_view(pairs@) == candidate_pairs(ev.subrange(0, i as int)),
            first is None <==> pairs@.len() == 0,
            first is None ==> forall|j: int| 0 <= j < i ==> !is_candidate(#[trigger] ev[j]),
            first matches Some(f) ==> f < i && is_candidate(ev[f as int]),
            pairs@.len() == 1 ==> forall|j: int|
                0 <= j < i && is_candidate(#[trigger] ev[j]) ==> (first is Some && first->0 == j),
        decreases entries@.len() - i,
    {
        proof {
            assert(ev.subrange(0, i + 1).drop_last() =~= ev.subrange(0, i as int));
        }
        let e = &entries[i];
        let hit = match &e.login.host {
            Some(h) => *h == fxa,
            None => false,
        };
        if hit {
            let ghost before = pairs@;
            pairs.push((e.name.clone(), e.login.username.clone()));
            assert(pairs_view(pairs@) =~= pairs_view(before).push((e.name@, e.login.username@)));
            if first.is_none() {
                first = Some(i);
            }
        }
        i = i + 1;
    }
    assert(ev.subrange(0, i as int) == ev);
    (pairs, first)
}

/// Chooses the entry that holds the sync-account credential. With a secret name
/// given, it is the first entry of that name; without, it is the single entry
/// hosted at the account host.
pub fn select_credential(entries: &Vec<StoreEntry>, pass_name: &Option<String>) -> (r: Result<
    usize,
    CredentialError,
>)
    ensures
        pass_name matches Some(n) ==> {
            &&& r is Ok <==> exists|i: int| is_first_named(entries_view(entries@), n@, i)
            &&& r matches Ok(i) ==> is_first_named(entries_view(entries@), n@, i as int)
            &&& r is Err ==> (r matches Err(CredentialError::NotFound))
        },
        pass_name is None ==> {
            let c = candidate_pairs(entries_view(entries@));
            &&& (r matches Err(CredentialError::NotFound)) <==> c.len() == 0
            &&& r is Ok <==> c.len() == 1
            &&& r matches Ok(i) ==> i < entries@.len() && is_candidate(entries_view(entries@)[i as int])
                && forall|j: int|
                0 <= j < entries@.len() && is_candidate(#[trigger] entries_view(entries@)[j]) ==> j
                    == i
            &&& r matches Err(CredentialError::Ambiguous { candidates }) ==> pairs_view(candidates@)
                == c
            &&& (r matches Err(CredentialError::Ambiguous { .. })) <==> c.len() >= 2
        },
{
    match pass_name {
        Some(n) => match find_named(entries, n) {
            Some(i) => Ok(i),
            None => {
                proof {
                    let ev = entries_view(entries@);
                    assert forall|i: int| !is_first_named(ev, n@, i) by {
                        if 0 <= i < ev.len() {
                            assert(ev[i].name != n@);
                        }
                    }
                }
                Err(CredentialError::NotFound)
            },
        },
        None => {
            let (pairs, first) = account_candidates(entries);
            if pairs.len() == 0 {
                Err(CredentialError::NotFound)
            } else if pairs.len() == 1 {
                match first {
                    Some(f) => Ok(f),
                    None => Err(CredentialError::NotFound),
                }
            } else {
                Err(CredentialError::Ambiguous { candidates: pairs })
            }
        },
    }
}

/// The logins that the reconcilers see, with the credential at `cred` left out
/// unless it is marked `Include`.
pub fn synced_logins(entries: &Vec<StoreEntry>, cred: usize) -> (r: Vec<LocalLogin>)
    ensures
        locals_view(r@) == synced_set(entries_view(entries@), cred as int),
{
    let ghost ev = entries_view(entries@);
    let mut out: Vec<LocalLogin> = Vec::new();
    let mut i: usize = 0;
    while i < entries.len()
        invariant
            i <= entries@.len(),
            ev == entries_view(entries@),
            locals_view(out@) == synced_set(ev.subrange(0, i as int), cred as int),
        decreases entries@.len() - i,
    {
        proof {
            assert(ev.subrange(0, i + 1).drop_last() =~= ev.subrange(0, i as int));
        }
        let e = &entries[i];
        if i != cred || e.login.filter == Some(Filter::Include) {
            let ghost before = out@;
            let l = e.login.copy_login();
            out.push(l);
            assert(locals_view(out@) =~= locals_view(before).push(e.login@));
        }
        i = i + 1;
    }
    assert(ev.subrange(0, i as int) == ev);
    out
}

/// The markers of all entries, in order.
pub fn entry_markers(entries: &Vec<StoreEntry>) -> (r: Vec<Option<Filter>>)
    ensures
        r@ == markers(entries_view(entries@)),
{
    let mut out: Vec<Option<Filter>> = Vec::new();
    let mut i: usize = 0;
    while i < entries.len()
        invariant
            i <= entries@.len(),
            out@ == markers(entries_view(entries@)).subrange(0, i as int),
        decreases entries@.len() - i,
    {
        out.push(entries[i].login.filter);
        assert(out@ =~= markers(entries_view(entries@)).subrange(0, i + 1));
        i = i + 1;
    }
    assert(out@ =~= markers(entries_view(entries@)));
    out
}

/// The jobs of one run, given every entry read from the store, the index of the
/// credential and the remote logins.
pub fn plan(entries: &Vec<StoreEntry>, cred: usize, remote: &Vec<RemoteLogin>, op: Operation) -> (r:
    Vec<Job>)
    ensures
        jobs_view(r@) == run_plan(entries_view(entries@), cred as int, remotes_view(remote@), op),
{
    let marks = entry_markers(entries);
    let mode = FilterMode::from_markers(&marks);
    if mode == FilterMode::Conflicting {
        let out: Vec<Job> = Vec::new();
        assert(jobs_view(out@) =~= seq![]);
        return out;
    }
    let locals = synced_logins(entries, cred);
    match op {
        Operation::Upload => upload_jobs(&locals, mode, remote),
        Operation::Delete => delete_jobs(&locals, remote),
    }
}

} // verus!
