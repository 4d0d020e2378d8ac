//! A backend that keeps apps in memory and runs nothing: what the other
//! backends do to the apps they store, without the containers.
use vstd::prelude::*;
use std::collections::HashMap;
use crate::backend::error::{BackendError, ErrorView, result_view};
use crate::types::{App, AppConfig, AppConfigView, AppId, AppStatus, AppView, ContainerIndex, ContainerOutput};

verus! {

broadcast use vstd::std_specs::hash::group_hash_axioms;

/// Apps and their statuses, kept in memory; new apps get consecutive IDs.
#[derive(Debug)]
pub struct MockBackend {
    next_id: AppId,
    apps: HashMap<AppId, App>,
    statuses: HashMap<AppId, AppStatus>,
    order: Vec<AppId>,
}

/// What an in-memory backend holds: the next ID to hand out, the apps by
/// ID, and their statuses by ID.
#[verifier::ext_equal]
pub struct MockState {
    pub next_id: AppId,
    pub apps: Map<AppId, AppView>,
    pub statuses: Map<AppId, AppStatus>,
}

impl View for MockBackend {
    type V = MockState;

    closed spec fn view(&self) -> MockState {
        MockState {
            next_id: self.next_id,
            apps: self.apps@.map_values(|a: App| a@),
            statuses: self.statuses@,
        }
    }
}

/// Whether each app is stored under its own ID.
pub open spec fn apps_under_own_id(s: MockState) -> bool {
    forall|k: AppId| #[trigger] s.apps.contains_key(k) ==> s.apps[k].id == k
}

/// The ID after `id`, wrapping around at the largest.
pub open spec fn following_id(id: AppId) -> AppId {
    if id == u64::MAX {
        0
    } else {
        (id + 1) as AppId
    }
}

/// The status of an app just created: running when it starts on creation.
pub open spec fn initial_status(c: AppConfigView) -> AppStatus {
    if c.autostart {
        AppStatus::Running
    } else {
        AppStatus::Stopped
    }
}

/// Creating an app: it gets the next ID and is stored with its initial status.
pub open spec fn create_spec(s: MockState, c: AppConfigView) -> MockState {
    MockState {
        next_id: following_id(s.next_id),
        apps: s.apps.insert(s.next_id, AppView { id: s.next_id, config: c }),
        statuses: s.statuses.insert(s.next_id, initial_status(c)),
    }
}

/// Setting the status of a stored app; an app that is not stored is not found.
pub open spec fn set_status_spec(s: MockState, id: AppId, status: AppStatus) -> (MockState, Result<AppStatus, ErrorView>) {
    if s.apps.contains_key(id) {
        (MockState { statuses: s.statuses.insert(id, status), ..s }, Ok(status))
    } else {
        (s, Err(ErrorView::NotFound))
    }
}

/// Deleting a stored app and its status; an app that is not stored is not found.
pub open spec fn delete_spec(s: MockState, id: AppId) -> (MockState, Result<(), ErrorView>) {
    if s.apps.contains_key(id) {
        (MockState { apps: s.apps.remove(id), statuses: s.statuses.remove(id), ..s }, Ok(()))
    } else {
        (s, Err(ErrorView::NotFound))
    }
}

/// Looking up a stored app.
pub open spec fn get_spec(s: MockState, id: AppId) -> Result<AppView, ErrorView> {
    if s.apps.contains_key(id) {
        Ok(s.apps[id])
    } else {
        Err(ErrorView::NotFound)
    }
}

/// Looking up the status of a stored app.
pub open spec fn status_spec(s: MockState, id: AppId) -> Result<AppStatus, ErrorView> {
    if s.statuses.contains_key(id) {
        Ok(s.statuses[id])
    } else {
        Err(ErrorView::NotFound)
    }
}

/// The output reported for the container at `index` running `image`.
pub open spec fn mock_output(index: nat, image: Seq<char>) -> Seq<char> {
    "Mock output for container "@ + crate::text::decimal(index) + " ("@ + image + ")"@
}

/// The output of a container of a stored app: not found when the app is not
/// stored or has no container at that index.
pub open spec fn output_spec(s: MockState, id: AppId, index: ContainerIndex) -> Result<Seq<char>, ErrorView> {
    if !s.apps.contains_key(id) {
        Err(ErrorView::NotFound)
    } else if index >= s.apps[id].config.container_specs().len() {
        Err(ErrorView::NotFound)
    } else {
        Ok(mock_output(index as nat, s.apps[id].config.container_specs()[index as int].image()))
    }
}

impl MockBackend {
    /// Whether the backend is in order: the IDs of the stored apps are kept,
    /// each once, in the order the apps were stored.
    pub closed spec fn wf(&self) -> bool {
        &&& self.order@.no_duplicates()
        &&& forall|k: AppId| #[trigger] self.apps@.contains_key(k) <==> self.order@.contains(k)
        &&& apps_under_own_id(self@)
    }

    /// A backend that holds no apps and hands out IDs from 0.
    pub fn new() -> (b: Self)
        ensures
            b.wf(),
            b@.next_id == 0,
            b@.apps == Map::<AppId, AppView>::empty(),
            b@.statuses == Map::<AppId, AppStatus>::empty(),
    {
        let b = MockBackend {
            next_id: 0,
            apps: HashMap::new(),
            statuses: HashMap::new(),
            order: Vec::new(),
        };
        assert(b@.apps =~= Map::<AppId, AppView>::empty());
        b
    }

    /// Stores a new app under the next ID, running when it starts on
    /// creation and stopped otherwise, and hands it back.
    pub fn create_app(&mut self, config: AppConfig) -> (r: Result<App, BackendError>)
        requires
            old(self).wf(),
        ensures
            final(self).wf(),
            final(self)@ == create_spec(old(self)@, config@),
            r matches Ok(app) && app@ == (AppView { id: old(self)@.next_id, config: config@ }),
    {
        let id = self.next_id;
        self.next_id = self.next_id.wrapping_add(1);
        let status = if config.autostart {
            AppStatus::Running
        } else {
            AppStatus::Stopped
        };
        let app = App { id, config };
        let stored = app.clone();
        let ghost old_order = self.order@;
        if !self.apps.contains_key(&id) {
            self.order.push(id);
            proof {
                assert forall|a: int, b: int| 0 <= a < b < self.order@.len() implies self.order@[a] != self.order@[b] by {
                    if b == old_order.len() {
                        assert(old_order.contains(old_order[a]));
                    }
                }
                assert forall|k: AppId| self.order@.contains(k) <==> (old_order.contains(k) || k == id) by {
                    if old_order.contains(k) {
                        let q = choose|q: int| 0 <= q < old_order.len() && old_order[q] == k;
                        assert(self.order@[q] == k);
                    }
                    if k == id {
                        assert(self.order@[old_order.len() as int] == k);
                    }
                }
            }
        }
        self.apps.insert(id, stored);
        self.statuses.insert(id, status);
        assert(self@ =~= create_spec(old(self)@, app@.config));
        Ok(app)
    }

    fn set_status(&mut self, id: AppId, status: AppStatus) -> (r: Result<AppStatus, BackendError>)
        requires
            old(self).wf(),
        ensures
            final(self).wf(),
            (final(self)@, result_view(r)) == set_status_spec(old(self)@, id, status),
    {
        if !self.apps.contains_key(&id) {
            return Err(BackendError::NotFound);
        }
        self.statuses.insert(id, status);
        assert(self@ =~= set_status_spec(old(self)@, id, status).0);
        Ok(status)
    }

    /// Marks a stored app as running.
    pub fn start_app(&mut self, id: AppId) -> (r: Result<AppStatus, BackendError>)
        requires
            old(self).wf(),
        ensures
            final(self).wf(),
            (final(self)@, result_view(r)) == set_status_spec(old(self)@, id, AppStatus::Running),
    {
        self.set_status(id, AppStatus::Running)
    }

    /// Marks a stored app as stopped.
    pub fn stop_app(&mut self, id: AppId) -> (r: Result<AppStatus, BackendError>)
        requires
            old(self).wf(),
        ensures
            final(self).wf(),
            (final(self)@, result_view(r)) == set_status_spec(old(self)@, id, AppStatus::Stopped),
    {
        self.set_status(id, AppStatus::Stopped)
    }

    /// Removes a stored app and its status.
    pub fn delete_app(&mut self, id: AppId) -> (r: Result<(), BackendError>)
        requires
            old(self).wf(),
        ensures
            final(self).wf(),
            (final(self)@, match r {
                Ok(()) => Ok::<(), ErrorView>(()),
                Err(e) => Err(e@),
            }) == delete_spec(old(self)@, id),
    {
        if !self.apps.contains_key(&id) {
            return Err(BackendError::NotFound);
        }
        self.apps.remove(&id);
        self.statuses.remove(&id);
        let mut pos: usize = 0;
        while pos < self.order.len() && self.order[pos] != id
            invariant
                pos <= self.order@.len(),
                forall|q: int| 0 <= q < pos ==> self.order@[q] != id,
            decreases self.order@.len() - pos,
        {
            pos = pos + 1;
        }
        if pos < self.order.len() {
            let ghost before = self.order@;
            self.order.remove(pos);
            assert(self.order@ =~= before.remove(pos as int));
            assert forall|k: AppId| #[trigger] self.order@.contains(k) <==> (before.contains(k) && k != id) by {
                if before.contains(k) && k != id {
                    let q = choose|q: int| 0 <= q < before.len() && before[q] == k;
                    if q < pos {
                        assert(self.order@[q] == k);
                    } else {
                        assert(self.order@[q - 1] == k);
                    }
                }
            }
        }
        assert(self@ =~= delete_spec(old(self)@, id).0);
        Ok(())
    }

    /// A copy of a stored app.
    pub fn get_app(&self, id: AppId) -> (r: Result<App, BackendError>)
        ensures
            result_view(r) == get_spec(self@, id),
    {
        match self.apps.get(&id) {
            Some(app) => Ok(app.clone()),
            None => Err(BackendError::NotFound),
        }
    }

    /// The status of a stored app.
    pub fn get_app_status(&self, id: AppId) -> (r: Result<AppStatus, BackendError>)
        ensures
            result_view(r) == status_spec(self@, id),
    {
        match self.statuses.get(&id) {
            Some(status) => Ok(*status),
            None => Err(BackendError::NotFound),
        }
    }

    /// A line that names the container at `index` of a stored app and its image.
    pub fn get_app_output(&self, id: AppId, index: ContainerIndex) -> (r: Result<ContainerOutput, BackendError>)
        ensures
            result_view(r) == output_spec(self@, id, index),
    {
        let app = match self.get_app(id) {
            Ok(app) => app,
            Err(e) => return Err(e),
        };
        let containers = app.config.get_containers();
        if index >= containers.len() {
            return Err(BackendError::NotFound);
        }
        let mut output = String::from_str("Mock output for container ");
        crate::text::push_decimal(&mut output, index as u64);
        output.append(" (");
        output.append(containers[index].image());
        output.append(")");
        Ok(output)
    }

    /// Copies of all stored apps, one per stored app (in the order they were
    /// stored).
    pub fn get_all_apps(&self) -> (r: Result<Vec<App>, BackendError>)
        requires
            self.wf(),
        ensures
            r matches Ok(apps) && lists_apps(apps@.map_values(|a: App| a@), self@),
    {
        let ghost m = self.apps@;
        let mut r: Vec<App> = Vec::new();
        for i in 0..self.order.len()
            invariant
                self.wf(),
                m == self.apps@,
                r@.len() == i,
                forall|j: int| 0 <= j < i ==> #[trigger] r@[j]@ == m[self.order@[j]]@,
        {
            let id = self.order[i];
            assert(self.order@.contains(id));
            match self.apps.get(&id) {
                Some(app) => r.push(app.clone()),
                None => {
                    assert(false);
                },
            }
        }
        proof {
            let order = self.order@;
            let list = r@.map_values(|a: App| a@);
            order.unique_seq_to_set();
            assert(order.to_set() =~= m.dom());
            assert(self@.apps.dom() =~= m.dom());
            assert(list.len() == self@.apps.dom().len());
            assert forall|i: int| 0 <= i < list.len() implies self@.apps.contains_key(#[trigger] list[i].id)
                && self@.apps[list[i].id] == list[i] by {
                assert(order.contains(order[i]));
                assert(self@.apps.contains_key(order[i]));
                assert(list[i] == self@.apps[order[i]]);
            }
            assert forall|k: AppId| #[trigger] self@.apps.contains_key(k) implies exists|i: int|
                0 <= i < list.len() && list[i].id == k by {
                let i = choose|i: int| 0 <= i < order.len() && order[i] == k;
                assert(list[i] == m[k]@);
            }
        }
        Ok(r)
    }
}

/// Whether `list` holds the stored apps: as many as there are, each a
/// stored app and each stored app among them.
pub open spec fn lists_apps(list: Seq<AppView>, s: MockState) -> bool {
    &&& list.len() == s.apps.dom().len()
    &&& forall|i: int| 0 <= i < list.len() ==> s.apps.contains_key(#[trigger] list[i].id) && s.apps[list[i].id] == list[i]
    &&& forall|k: AppId| #[trigger] s.apps.contains_key(k) ==> exists|i: int| 0 <= i < list.len() && list[i].id == k
}

/// A created app can be read back, under the ID it was given, with the
/// configuration it was created with and its initial status.
pub proof fn lemma_get_after_create(s: MockState, c: AppConfigView)
    ensures
        get_spec(create_spec(s, c), s.next_id) == Ok::<AppView, ErrorView>(
            AppView { id: s.next_id, config: c },
        ),
        status_spec(create_spec(s, c), s.next_id) == Ok::<AppStatus, ErrorView>(initial_status(c)),
{
}

/// Creating an app leaves every app stored under another ID as it was.
pub proof fn lemma_create_keeps_others(s: MockState, c: AppConfigView, id: AppId)
    requires
        id != s.next_id,
    ensures
        get_spec(create_spec(s, c), id) == get_spec(s, id),
        status_spec(create_spec(s, c), id) == status_spec(s, id),
{
}

/// Creating an app keeps every app stored under its own ID.
pub proof fn lemma_create_keeps_ids(s: MockState, c: AppConfigView)
    requires
        apps_under_own_id(s),
    ensures
        apps_under_own_id(create_spec(s, c)),
{
}

/// A deleted app is gone: reading it or its status, or deleting it again,
/// is answered with not found.
pub proof fn lemma_get_after_delete(s: MockState, id: AppId)
    ensures
        get_spec(delete_spec(s, id).0, id) == Err::<AppView, ErrorView>(ErrorView::NotFound),
        status_spec(delete_spec(s, id).0, id) == Err::<AppStatus, ErrorView>(ErrorView::NotFound)
            || !s.apps.contains_key(id),
        delete_spec(delete_spec(s, id).0, id).1 == Err::<(), ErrorView>(ErrorView::NotFound),
{
}

/// Deleting an app leaves every other app as it was.
pub proof fn lemma_delete_keeps_others(s: MockState, id: AppId, other: AppId)
    requires
        id != other,
    ensures
        get_spec(delete_spec(s, id).0, other) == get_spec(s, other),
{
}

/// Starting or stopping a stored app sets its status and leaves the app as
/// it was; for an app that is not stored, nothing changes and the answer is
/// not found.
pub proof fn lemma_status_after_set(s: MockState, id: AppId, status: AppStatus)
    ensures
        s.apps.contains_key(id) ==> status_spec(set_status_spec(s, id, status).0, id) == Ok::<
            AppStatus,
            ErrorView,
        >(status),
        get_spec(set_status_spec(s, id, status).0, id) == get_spec(s, id),
        !s.apps.contains_key(id) ==> set_status_spec(s, id, status).0 == s
            && set_status_spec(s, id, status).1 == Err::<AppStatus, ErrorView>(ErrorView::NotFound),
{
}

/// Creating an app under an ID that is not in use makes the list of all
/// apps one longer.
pub proof fn lemma_list_grows_on_create(
    s: MockState,
    c: AppConfigView,
    before: Seq<AppView>,
    after: Seq<AppView>,
)
    requires
        s.apps.dom().finite(),
        !s.apps.contains_key(s.next_id),
        lists_apps(before, s),
        lists_apps(after, create_spec(s, c)),
    ensures
        after.len() == before.len() + 1,
{
    assert(create_spec(s, c).apps.dom() =~= s.apps.dom().insert(s.next_id));
}

} // verus!
