use vstd::prelude::*;
use crate::gpu::{
    GpuInstance, GpuInstanceStatus, GpuConfigError, ConfigEntry, gpu_config, parse_gpu_instances,
    immers_status, status_from_immers, distinct_keys, lemma_config_servers_distinct,
};
use crate::text::{
    str_eq, split_on, lex_lt, lex_less, lemma_lex_lt_transitive, lemma_lex_lt_total,
    lemma_lex_lt_irreflexive,
};
use crate::request_app::clone_text;

verus! {

/// One row of the instance table, as values.
pub struct InstanceView {
    pub server_id: Seq<char>,
    pub service_url: Seq<char>,
    pub status: GpuInstanceStatus,
    pub current_job_id: Option<Seq<char>>,
}

pub open spec fn job_view(j: Option<String>) -> Option<Seq<char>> {
    match j {
        Some(s) => Some(s@),
        None => None,
    }
}

pub open spec fn instance_view(g: GpuInstance) -> InstanceView {
    InstanceView {
        server_id: g.server_id@,
        service_url: g.service_url@,
        status: g.status,
        current_job_id: job_view(g.current_job_id),
    }
}

pub open spec fn rows_view(v: Seq<GpuInstance>) -> Seq<InstanceView> {
    v.map_values(|g: GpuInstance| instance_view(g))
}

/// Where the row of server `server` stands.
pub open spec fn row_position(rows: Seq<InstanceView>, server: Seq<char>) -> Option<int>
    decreases rows.len(),
{
    if rows.len() == 0 {
        None
    } else if rows.last().server_id == server {
        Some(rows.len() - 1)
    } else {
        row_position(rows.drop_last(), server)
    }
}

/// The first row whose instance can be taken.
pub open spec fn first_available(rows: Seq<InstanceView>) -> Option<int>
    decreases rows.len(),
{
    if rows.len() == 0 {
        None
    } else if rows[0].status == GpuInstanceStatus::Available {
        Some(0)
    } else {
        match first_available(rows.drop_first()) {
            Some(p) => Some(p + 1),
            None => None,
        }
    }
}

/// The rows stand in the order of their server ids, each server has one
/// row, and an instance that can be taken holds no job.
pub open spec fn table_wf(rows: Seq<InstanceView>) -> bool {
    &&& forall|i: int, j: int|
        0 <= i < j < rows.len() ==> lex_lt(#[trigger] rows[i].server_id, #[trigger] rows[j].server_id)
    &&& forall|i: int, j: int|
        0 <= i < j < rows.len() ==> #[trigger] rows[i].server_id != #[trigger] rows[j].server_id
    &&& forall|i: int|
        0 <= i < rows.len() && #[trigger] rows[i].status == GpuInstanceStatus::Available
            ==> rows[i].current_job_id is None
}

pub open spec fn with_status(
    r: InstanceView,
    status: GpuInstanceStatus,
    job: Option<Seq<char>>,
) -> InstanceView {
    InstanceView { server_id: r.server_id, service_url: r.service_url, status, current_job_id: job }
}

/// The table after setting the status and job of server `server`; a server
/// without a row leaves it as it was.
pub open spec fn status_updated(
    rows: Seq<InstanceView>,
    server: Seq<char>,
    status: GpuInstanceStatus,
    job: Option<Seq<char>>,
) -> Seq<InstanceView> {
    match row_position(rows, server) {
        Some(p) => rows.update(p, with_status(rows[p], status, job)),
        None => rows,
    }
}

/// The table after a job took the first instance that could be taken: that
/// instance is waking up for the job.
pub open spec fn acquired(rows: Seq<InstanceView>, job: Seq<char>) -> Seq<InstanceView> {
    match first_available(rows) {
        Some(p) => rows.update(p, with_status(rows[p], GpuInstanceStatus::WakingUp, Some(job))),
        None => rows,
    }
}

/// The table after job `job` gave back server `server`: the instance can be
/// taken again if it was held by that job, and nothing changes otherwise.
pub open spec fn released(rows: Seq<InstanceView>, server: Seq<char>, job: Seq<char>) -> Seq<
    InstanceView,
> {
    match row_position(rows, server) {
        Some(p) => if rows[p].current_job_id == Some(job) {
            rows.update(p, with_status(rows[p], GpuInstanceStatus::Available, None))
        } else {
            rows
        },
        None => rows,
    }
}

/// The table with server `server` recorded afresh at address `url`, free
/// and without a job.
pub open spec fn row_upserted(rows: Seq<InstanceView>, server: Seq<char>, url: Seq<char>) -> Seq<
    InstanceView,
> {
    let fresh = fresh_row(server, url);
    match row_position(rows, server) {
        Some(p) => rows.update(p, fresh),
        None => rows.insert(sorted_position(rows, server), fresh),
    }
}

/// Where a row for server `server` goes: after the rows of the servers that
/// come before it.
pub open spec fn sorted_position(rows: Seq<InstanceView>, server: Seq<char>) -> int
    decreases rows.len(),
{
    if rows.len() == 0 {
        0
    } else if lex_lt(rows[0].server_id, server) {
        1 + sorted_position(rows.drop_first(), server)
    } else {
        0
    }
}

pub proof fn lemma_sorted_position(rows: Seq<InstanceView>, server: Seq<char>)
    ensures
        0 <= sorted_position(rows, server) <= rows.len(),
        forall|k: int|
            0 <= k < sorted_position(rows, server) ==> lex_lt(#[trigger] rows[k].server_id, server),
        sorted_position(rows, server) < rows.len() ==> !lex_lt(
            rows[sorted_position(rows, server)].server_id,
            server,
        ),
    decreases rows.len(),
{
    if rows.len() > 0 && lex_lt(rows[0].server_id, server) {
        let t = rows.drop_first();
        lemma_sorted_position(t, server);
        assert forall|k: int| 1 <= k < rows.len() implies rows[k] == t[k - 1] by {}
    }
}

/// A row for a new server inserted at its place keeps the table well formed.
proof fn lemma_insert_wf(rows: Seq<InstanceView>, r: InstanceView)
    requires
        table_wf(rows),
        row_position(rows, r.server_id) is None,
        r.status == GpuInstanceStatus::Available ==> r.current_job_id is None,
    ensures
        table_wf(rows.insert(sorted_position(rows, r.server_id), r)),
{
    let s = r.server_id;
    let p = sorted_position(rows, s);
    lemma_sorted_position(rows, s);
    lemma_row_position(rows, s);
    let u = rows.insert(p, r);
    assert forall|k: int| p <= k < rows.len() implies lex_lt(s, #[trigger] rows[k].server_id) by {
        if k > p {
            if lex_lt(rows[k].server_id, s) {
                lemma_lex_lt_transitive(rows[p].server_id, rows[k].server_id, s);
            }
        }
        lemma_lex_lt_total(rows[k].server_id, s);
    }
    assert forall|i: int, j: int| 0 <= i < j < u.len() implies lex_lt(
        #[trigger] u[i].server_id,
        #[trigger] u[j].server_id,
    ) by {
        if j < p {
            assert(u[i] == rows[i] && u[j] == rows[j]);
        } else if j == p {
            assert(u[i] == rows[i]);
        } else if i < p {
            assert(u[i] == rows[i] && u[j] == rows[j - 1]);
            if i < p {
                lemma_lex_lt_transitive(rows[i].server_id, s, rows[j - 1].server_id);
            }
        } else if i == p {
            assert(u[j] == rows[j - 1]);
        } else {
            assert(u[i] == rows[i - 1] && u[j] == rows[j - 1]);
        }
    }
    assert forall|i: int, j: int| 0 <= i < j < u.len() implies #[trigger] u[i].server_id
        != #[trigger] u[j].server_id by {
        assert(lex_lt(u[i].server_id, u[j].server_id));
        lemma_lex_lt_irreflexive(u[i].server_id);
    }
    assert forall|i: int|
        0 <= i < u.len() && #[trigger] u[i].status == GpuInstanceStatus::Available implies u[i].current_job_id is None by {
        if i < p {
            assert(u[i] == rows[i]);
        } else if i > p {
            assert(u[i] == rows[i - 1]);
        }
    }
}

/// The table after every configured server was recorded afresh, in order.
pub open spec fn initialized(rows: Seq<InstanceView>, config: Seq<ConfigEntry>) -> Seq<InstanceView>
    decreases config.len(),
{
    if config.len() == 0 {
        rows
    } else {
        let prev = initialized(rows, config.drop_last());
        row_upserted(prev, config.last().0, config.last().1)
    }
}

/// The status recorded for an instance whose cloud status was read as
/// `cloud` (`None`: it could not be read).
pub open spec fn synced_status(cloud: Option<Seq<char>>) -> GpuInstanceStatus {
    match cloud {
        Some(s) => immers_status(s),
        None => GpuInstanceStatus::Error,
    }
}

pub proof fn lemma_row_position(rows: Seq<InstanceView>, server: Seq<char>)
    ensures
        match row_position(rows, server) {
            Some(p) => 0 <= p < rows.len() && rows[p].server_id == server,
            None => forall|i: int| 0 <= i < rows.len() ==> rows[i].server_id != server,
        },
    decreases rows.len(),
{
    if rows.len() > 0 && rows.last().server_id != server {
        lemma_row_position(rows.drop_last(), server);
        assert forall|i: int| 0 <= i < rows.len() - 1 implies rows[i] == rows.drop_last()[i] by {}
    }
}

pub proof fn lemma_first_available(rows: Seq<InstanceView>)
    ensures
        match first_available(rows) {
            Some(p) => 0 <= p < rows.len() && rows[p].status == GpuInstanceStatus::Available
                && forall|i: int| 0 <= i < p ==> rows[i].status != GpuInstanceStatus::Available,
            None => forall|i: int|
                0 <= i < rows.len() ==> rows[i].status != GpuInstanceStatus::Available,
        },
    decreases rows.len(),
{
    if rows.len() > 0 && rows[0].status != GpuInstanceStatus::Available {
        lemma_first_available(rows.drop_first());
        assert forall|i: int| 1 <= i < rows.len() implies rows[i] == rows.drop_first()[i - 1] by {}
    }
}

/// A row changed in place keeps the table well formed when it keeps its
/// server and holds no job while it can be taken.
proof fn lemma_update_wf(rows: Seq<InstanceView>, p: int, r: InstanceView)
    requires
        table_wf(rows),
        0 <= p < rows.len(),
        r.server_id == rows[p].server_id,
        r.status == GpuInstanceStatus::Available ==> r.current_job_id is None,
    ensures
        table_wf(rows.update(p, r)),
{
    let u = rows.update(p, r);
    assert forall|i: int, j: int| 0 <= i < j < u.len() implies #[trigger] u[i].server_id
        != #[trigger] u[j].server_id by {
        assert(u[i].server_id == rows[i].server_id);
        assert(u[j].server_id == rows[j].server_id);
    }
    assert forall|i: int, j: int| 0 <= i < j < u.len() implies lex_lt(
        #[trigger] u[i].server_id,
        #[trigger] u[j].server_id,
    ) by {
        assert(u[i].server_id == rows[i].server_id);
        assert(u[j].server_id == rows[j].server_id);
    }
}

/// The pool of GPU instances: the configured servers and the table that
/// records, for each, its address, its status and the job it serves.
pub struct GpuInstanceManager {
    instances_config: Vec<(String, String)>,
    instances: Vec<GpuInstance>,
}

impl GpuInstanceManager {
    pub closed spec fn config(&self) -> Seq<ConfigEntry> {
        self.instances_config@.map_values(|e: (String, String)| (e.0@, e.1@))
    }

    pub closed spec fn rows(&self) -> Seq<InstanceView> {
        rows_view(self.instances@)
    }

    pub open spec fn wf(&self) -> bool {
        table_wf(self.rows()) && distinct_keys(self.config())
    }

    /// A pool of the servers listed in `gpu_instances`
    /// (`server_id:url,server_id:url,...`), with nothing recorded yet.
    pub fn new(gpu_instances: &str) -> (res: Result<GpuInstanceManager, GpuConfigError>)
        ensures
            match (res, gpu_config(gpu_instances@)) {
                (Ok(m), Ok(es)) => m.wf() && m.config() == es && m.rows().len() == 0,
                (Err(e1), Err(e2)) => e1 == e2,
                _ => false,
            },
    {
        proof {
            lemma_config_servers_distinct(split_on(gpu_instances@, ","@));
        }
        match parse_gpu_instances(gpu_instances) {
            Err(e) => Err(e),
            Ok(config) => {
                let m = GpuInstanceManager { instances_config: config, instances: Vec::new() };
                assert(m.rows() =~= Seq::<InstanceView>::empty());
                Ok(m)
            },
        }
    }

    /// Sets the status and job of server `server_id`; a server without a
    /// row changes nothing.
    fn update_instance_status(
        &mut self,
        server_id: &str,
        status: GpuInstanceStatus,
        job_id: Option<String>,
    )
        requires
            old(self).wf(),
            status == GpuInstanceStatus::Available ==> job_id is None,
        ensures
            final(self).wf(),
            final(self).config() == old(self).config(),
            final(self).rows() == status_updated(old(self).rows(), server_id@, status, job_view(job_id)),
    {
        let ghost before = self.rows();
        proof {
            lemma_row_position(before, server_id@);
        }
        match find_row(&self.instances, server_id) {
            None => {},
            Some(p) => {
                let row = GpuInstance {
                    server_id: self.instances[p].server_id.clone(),
                    service_url: self.instances[p].service_url.clone(),
                    status,
                    current_job_id: job_id,
                };
                let ghost r = instance_view(row);
                proof {
                    lemma_update_wf(before, p as int, r);
                }
                self.instances.set(p, row);
                assert(self.rows() =~= before.update(p as int, r));
            },
        }
    }

    /// Takes the first instance (in server order) that can be taken for job
    /// `job_id`; it is waking up for that job from then on. `None`, with the table unchanged,
    /// when no instance can be taken.
    pub fn acquire_instance(&mut self, job_id: &str) -> (res: Option<GpuInstance>)
        requires
            old(self).wf(),
        ensures
            final(self).wf(),
            final(self).config() == old(self).config(),
            final(self).rows() == acquired(old(self).rows(), job_id@),
            match (res, first_available(old(self).rows())) {
                (Some(g), Some(p)) => instance_view(g) == with_status(
                    old(self).rows()[p],
                    GpuInstanceStatus::WakingUp,
                    Some(job_id@),
                ),
                (None, None) => true,
                _ => false,
            },
    {
        let ghost before = self.rows();
        proof {
            lemma_first_available(before);
        }
        let mut i: usize = 0;
        while i < self.instances.len()
            invariant
                i <= self.instances@.len(),
                before == self.rows(),
                self.wf(),
                self.config() == old(self).config(),
                before == old(self).rows(),
                forall|k: int| 0 <= k < i ==> before[k].status != GpuInstanceStatus::Available,
            decreases self.instances@.len() - i,
        {
            proof {
                lemma_first_available(before);
            }
            if self.instances[i].status == GpuInstanceStatus::Available {
                let row = GpuInstance {
                    server_id: self.instances[i].server_id.clone(),
                    service_url: self.instances[i].service_url.clone(),
                    status: GpuInstanceStatus::WakingUp,
                    current_job_id: Some(job_id.to_owned()),
                };
                let taken = copy_instance(&row);
                let ghost r = instance_view(row);
                assert(before[i as int] == instance_view(self.instances@[i as int]));
                assert(before[i as int].status == GpuInstanceStatus::Available);
                assert(first_available(before) == Some(i as int));
                proof {
                    lemma_update_wf(before, i as int, r);
                }
                self.instances.set(i, row);
                assert(self.rows() =~= before.update(i as int, r));
                return Some(taken);
            }
            i = i + 1;
        }
        proof {
            lemma_first_available(before);
        }
        None
    }

    /// Gives back server `server_id` after job `job_id`: it can be taken
    /// again. Nothing changes when that job does not hold it.
    pub fn release_instance(&mut self, server_id: &str, job_id: &str)
        requires
            old(self).wf(),
        ensures
            final(self).wf(),
            final(self).config() == old(self).config(),
            final(self).rows() == released(old(self).rows(), server_id@, job_id@),
    {
        let ghost before = self.rows();
        proof {
            lemma_row_position(before, server_id@);
        }
        match find_row(&self.instances, server_id) {
            None => {},
            Some(p) => {
                let holds = match &self.instances[p].current_job_id {
                    Some(j) => str_eq(j.as_str(), job_id),
                    None => false,
                };
                if holds {
                    let row = GpuInstance {
                        server_id: self.instances[p].server_id.clone(),
                        service_url: self.instances[p].service_url.clone(),
                        status: GpuInstanceStatus::Available,
                        current_job_id: None,
                    };
                    let ghost r = instance_view(row);
                    proof {
                        lemma_update_wf(before, p as int, r);
                    }
                    self.instances.set(p, row);
                    assert(self.rows() =~= before.update(p as int, r));
                }
            },
        }
    }

    /// Records every configured server afresh, one after the other in the
    /// configured order: at its address, free and without a job; a server
    /// seen for the first time gets its row at its place in server order.
    pub fn initialize_instances(&mut self)
        requires
            old(self).wf(),
        ensures
            final(self).wf(),
            final(self).config() == old(self).config(),
            final(self).rows() == initialized(old(self).rows(), old(self).config()),
    {
        let ghost before = self.rows();
        let ghost config = self.config();
        let mut i: usize = 0;
        assert(config.take(0) =~= Seq::<ConfigEntry>::empty());
        while i < self.instances_config.len()
            invariant
                i <= self.instances_config@.len(),
                config == self.config(),
                distinct_keys(config),
                table_wf(self.rows()),
                self.rows() == initialized(before, config.take(i as int)),
            decreases self.instances_config@.len() - i,
        {
            let server = self.instances_config[i].0.clone();
            let url = self.instances_config[i].1.clone();
            proof {
                assert(config.take(i + 1).drop_last() =~= config.take(i as int));
                assert(config.take(i + 1).last() == (server@, url@));
            }
            self.upsert_row(server, url);
            i = i + 1;
        }
        assert(config.take(config.len() as int) =~= config);
    }

    fn upsert_row(&mut self, server_id: String, service_url: String)
        requires
            table_wf(old(self).rows()),
        ensures
            table_wf(final(self).rows()),
            final(self).config() == old(self).config(),
            final(self).rows() == row_upserted(old(self).rows(), server_id@, service_url@),
    {
        let ghost before = self.rows();
        proof {
            lemma_row_position(before, server_id@);
        }
        let found = find_row(&self.instances, server_id.as_str());
        let row = GpuInstance {
            server_id,
            service_url,
            status: GpuInstanceStatus::Available,
            current_job_id: None,
        };
        let ghost r = instance_view(row);
        match found {
            Some(p) => {
                proof {
                    lemma_update_wf(before, p as int, r);
                }
                self.instances.set(p, row);
                assert(self.rows() =~= before.update(p as int, r));
            },
            None => {
                let ghost s = row.server_id@;
                proof {
                    lemma_sorted_position(before, s);
                }
                let mut i: usize = 0;
                while i < self.instances.len() && lex_less(
                    self.instances[i].server_id.as_str(),
                    row.server_id.as_str(),
                )
                    invariant
                        i <= self.instances@.len(),
                        before == self.rows(),
                        s == row.server_id@,
                        forall|k: int| 0 <= k < i ==> lex_lt(#[trigger] before[k].server_id, s),
                    decreases self.instances@.len() - i,
                {
                    assert(before[i as int] == instance_view(self.instances@[i as int]));
                    i = i + 1;
                }
                proof {
                    let q = sorted_position(before, s);
                    if i < self.instances@.len() {
                        assert(before[i as int] == instance_view(self.instances@[i as int]));
                    }
                    if (i as int) < q {
                        assert(lex_lt(before[i as int].server_id, s));
                    } else if (i as int) > q {
                        assert(lex_lt(before[q].server_id, s));
                    }
                    assert(i as int == q);
                    lemma_insert_wf(before, r);
                }
                self.instances.insert(i, row);
                assert(self.rows() =~= before.insert(i as int, r));
            },
        }
    }

    /// Records the cloud status read for `server_id` (`None`: it could not be
    /// read): a shelved instance can be taken, an active one is busy, any
    /// other is in error. The instance holds no job afterwards.
    pub fn sync_instance_status(&mut self, server_id: &str, cloud_status: Option<&str>)
        requires
            old(self).wf(),
        ensures
            final(self).wf(),
            final(self).config() == old(self).config(),
            final(self).rows() == status_updated(
                old(self).rows(),
                server_id@,
                synced_status(opt_str_view(cloud_status)),
                None,
            ),
    {
        let status = match cloud_status {
            Some(s) => status_from_immers(s),
            None => GpuInstanceStatus::Error,
        };
        self.update_instance_status(server_id, status, None);
    }

    /// Every recorded instance, in the order of the server ids.
    pub fn get_instances_status(&self) -> (res: Vec<GpuInstance>)
        requires
            self.wf(),
        ensures
            rows_view(res@) == self.rows(),
            forall|i: int, j: int|
                0 <= i < j < res@.len() ==> lex_lt(
                    #[trigger] res@[i].server_id@,
                    #[trigger] res@[j].server_id@,
                ),
    {
        let mut out: Vec<GpuInstance> = Vec::new();
        let mut i: usize = 0;
        while i < self.instances.len()
            invariant
                i <= self.instances@.len(),
                rows_view(out@) =~= self.rows().take(i as int),
            decreases self.instances@.len() - i,
        {
            let ghost prev = out@;
            out.push(copy_instance(&self.instances[i]));
            proof {
                assert(out@ =~= prev.push(out@.last()));
                assert(self.rows().take(i + 1) =~= self.rows().take(i as int).push(self.rows()[i as int]));
            }
            i = i + 1;
        }
        assert(self.rows().take(self.instances@.len() as int) =~= self.rows());
        assert forall|i: int, j: int| 0 <= i < j < out@.len() implies lex_lt(
            #[trigger] out@[i].server_id@,
            #[trigger] out@[j].server_id@,
        ) by {
            assert(rows_view(out@) == self.rows());
            assert(rows_view(out@)[i] == instance_view(out@[i]));
            assert(rows_view(out@)[j] == instance_view(out@[j]));
            assert(lex_lt(self.rows()[i].server_id, self.rows()[j].server_id));
        }
        out
    }

    /// Records that job `job_id` is now being processed on `server_id`.
    pub fn mark_instance_busy(&mut self, server_id: &str, job_id: &str)
        requires
            old(self).wf(),
        ensures
            final(self).wf(),
            final(self).config() == old(self).config(),
            final(self).rows() == status_updated(
                old(self).rows(),
                server_id@,
                GpuInstanceStatus::Busy,
                Some(job_id@),
            ),
    {
        self.update_instance_status(server_id, GpuInstanceStatus::Busy, Some(job_id.to_owned()));
    }

    /// Records that `server_id` failed; it holds no job any more.
    pub fn mark_instance_error(&mut self, server_id: &str)
        requires
            old(self).wf(),
        ensures
            final(self).wf(),
            final(self).config() == old(self).config(),
            final(self).rows() == status_updated(
                old(self).rows(),
                server_id@,
                GpuInstanceStatus::Error,
                None,
            ),
    {
        self.update_instance_status(server_id, GpuInstanceStatus::Error, None);
    }
}

pub open spec fn opt_str_view(o: Option<&str>) -> Option<Seq<char>> {
    match o {
        Some(s) => Some(s@),
        None => None,
    }
}

fn copy_instance(g: &GpuInstance) -> (res: GpuInstance)
    ensures
        instance_view(res) == instance_view(*g),
{
    GpuInstance {
        server_id: g.server_id.clone(),
        service_url: g.service_url.clone(),
        status: g.status,
        current_job_id: clone_text(&g.current_job_id),
    }
}

fn find_row(rows: &Vec<GpuInstance>, server: &str) -> (res: Option<usize>)
    ensures
        match res {
            Some(p) => row_position(rows_view(rows@), server@) == Some(p as int),
            None => row_position(rows_view(rows@), server@) is None,
        },
{
    let ghost rv = rows_view(rows@);
    let mut i: usize = rows.len();
    assert(rv.subrange(0, i as int) =~= rv);
    while i > 0
        invariant
            i <= rows@.len(),
            rv == rows_view(rows@),
            row_position(rv, server@) == row_position(rv.subrange(0, i as int), server@),
        decreases i,
    {
        let ghost pre = rv.subrange(0, i as int);
        if str_eq(rows[i - 1].server_id.as_str(), server) {
            assert(pre.last() == rv[i - 1]);
            return Some(i - 1);
        }
        assert(pre.drop_last() =~= rv.subrange(0, i - 1));
        i = i - 1;
    }
    None
}

/// How many times a job tries to claim an instance before it gives up.
pub const MAX_ACQUIRE_ATTEMPTS: u32 = 3;

/// Seconds to wait after an attempt that found no free instance.
pub const ACQUIRE_RETRY_PAUSE_SECS: u64 = 1;

/// What one attempt to claim an instance in the shared table came to.
#[derive(Clone, Copy, Debug, PartialEq, Eq, Structural)]
pub enum ClaimOutcome {
    /// A free instance was found and claimed.
    Claimed,
    /// A free instance was found, but another job claimed it first.
    Lost,
    /// No instance was free.
    NoneFree,
}

/// What to do after an attempt.
#[derive(Clone, Copy, Debug, PartialEq, Eq, Structural)]
pub enum ClaimStep {
    /// The instance is the job's.
    Done,
    /// Try again at once, as attempt number `0`.
    RetryNow(u32),
    /// Wait `ACQUIRE_RETRY_PAUSE_SECS`, then try again as attempt number `0`.
    RetryAfterPause(u32),
    /// No instance for this job.
    GiveUp,
}

pub open spec fn claim_step(attempt: u32, outcome: ClaimOutcome) -> ClaimStep {
    match outcome {
        ClaimOutcome::Claimed => ClaimStep::Done,
        ClaimOutcome::Lost => if attempt < MAX_ACQUIRE_ATTEMPTS {
            ClaimStep::RetryNow((attempt + 1) as u32)
        } else {
            ClaimStep::GiveUp
        },
        ClaimOutcome::NoneFree => if attempt < MAX_ACQUIRE_ATTEMPTS {
            ClaimStep::RetryAfterPause((attempt + 1) as u32)
        } else {
            ClaimStep::GiveUp
        },
    }
}

/// The next step after attempt `attempt` (counted from 1) came to `outcome`:
/// a claim ends the search, an instance lost to another job is looked for
/// again at once, an empty pool after a pause; after the last attempt the
/// job gives up.
pub fn acquire_attempt_step(attempt: u32, outcome: ClaimOutcome) -> (res: ClaimStep)
    requires
        1 <= attempt <= MAX_ACQUIRE_ATTEMPTS,
    ensures
        res == claim_step(attempt, outcome),
{
    match outcome {
        ClaimOutcome::Claimed => ClaimStep::Done,
        ClaimOutcome::Lost => if attempt < MAX_ACQUIRE_ATTEMPTS {
            ClaimStep::RetryNow(attempt + 1)
        } else {
            ClaimStep::GiveUp
        },
        ClaimOutcome::NoneFree => if attempt < MAX_ACQUIRE_ATTEMPTS {
            ClaimStep::RetryAfterPause(attempt + 1)
        } else {
            ClaimStep::GiveUp
        },
    }
}

/// A job makes at most `MAX_ACQUIRE_ATTEMPTS` attempts: every retry is the
/// next attempt and stays within the limit.
pub proof fn lemma_acquire_attempts_bounded(attempt: u32, outcome: ClaimOutcome)
    requires
        1 <= attempt <= MAX_ACQUIRE_ATTEMPTS,
    ensures
        match claim_step(attempt, outcome) {
            ClaimStep::RetryNow(n) | ClaimStep::RetryAfterPause(n) => n == attempt + 1 && n
                <= MAX_ACQUIRE_ATTEMPTS,
            ClaimStep::GiveUp => attempt == MAX_ACQUIRE_ATTEMPTS && outcome != ClaimOutcome::Claimed,
            ClaimStep::Done => outcome == ClaimOutcome::Claimed,
        },
{
}

proof fn lemma_position_after_update(rows: Seq<InstanceView>, p: int, r: InstanceView)
    requires
        table_wf(rows),
        0 <= p < rows.len(),
        r.server_id == rows[p].server_id,
        r.status == GpuInstanceStatus::Available ==> r.current_job_id is None,
    ensures
        row_position(rows.update(p, r), rows[p].server_id) == Some(p),
{
    let u = rows.update(p, r);
    lemma_update_wf(rows, p, r);
    lemma_row_position(u, rows[p].server_id);
    assert(u[p].server_id == rows[p].server_id);
    match row_position(u, rows[p].server_id) {
        Some(q) => {
            if q < p {
                assert(u[q].server_id != u[p].server_id);
            } else if q > p {
                assert(u[p].server_id != u[q].server_id);
            }
        },
        None => {},
    }
}

/// Giving back an instance with the job that took it restores the table as
/// it was before the job took it.
pub proof fn lemma_release_undoes_acquire(rows: Seq<InstanceView>, job: Seq<char>)
    requires
        table_wf(rows),
        first_available(rows) is Some,
    ensures
        released(acquired(rows, job), rows[first_available(rows)->0].server_id, job) == rows,
{
    lemma_first_available(rows);
    let p = first_available(rows)->0;
    let w = with_status(rows[p], GpuInstanceStatus::WakingUp, Some(job));
    lemma_position_after_update(rows, p, w);
    let u = rows.update(p, w);
    assert(u[p].current_job_id == Some(job));
    assert(with_status(u[p], GpuInstanceStatus::Available, None) == rows[p]);
    assert(u.update(p, rows[p]) =~= rows);
}

/// Giving back an instance with a job that does not hold it changes nothing.
pub proof fn lemma_release_by_other_job_changes_nothing(
    rows: Seq<InstanceView>,
    server: Seq<char>,
    job: Seq<char>,
)
    requires
        table_wf(rows),
        forall|i: int|
            0 <= i < rows.len() && rows[i].server_id == server ==> rows[i].current_job_id != Some(
                job,
            ),
    ensures
        released(rows, server, job) == rows,
{
    lemma_row_position(rows, server);
}

/// Taking an instance never touches one that is busy, waking up or in
/// error: only a free row changes, and it then holds the job.
pub proof fn lemma_acquire_takes_only_free(rows: Seq<InstanceView>, job: Seq<char>)
    ensures
        acquired(rows, job).len() == rows.len(),
        forall|i: int|
            0 <= i < rows.len() && rows[i].status != GpuInstanceStatus::Available
                ==> #[trigger] acquired(rows, job)[i] == rows[i],
        forall|i: int|
            0 <= i < rows.len() && acquired(rows, job)[i] != rows[i] ==> acquired(rows, job)[i]
                == with_status(rows[i], GpuInstanceStatus::WakingUp, Some(job)),
{
    lemma_first_available(rows);
}

/// The row of server `server`, if it has one.
pub open spec fn row_of(rows: Seq<InstanceView>, server: Seq<char>) -> Option<InstanceView> {
    match row_position(rows, server) {
        Some(p) => Some(rows[p]),
        None => None,
    }
}

/// A server recorded afresh: free, without a job.
pub open spec fn fresh_row(server: Seq<char>, url: Seq<char>) -> InstanceView {
    InstanceView {
        server_id: server,
        service_url: url,
        status: GpuInstanceStatus::Available,
        current_job_id: None,
    }
}

proof fn lemma_row_of_unique(rows: Seq<InstanceView>, server: Seq<char>, p: int)
    requires
        table_wf(rows),
        0 <= p < rows.len(),
        rows[p].server_id == server,
    ensures
        row_of(rows, server) == Some(rows[p]),
{
    lemma_row_position(rows, server);
    match row_position(rows, server) {
        Some(q) => {
            if q < p {
                assert(rows[q].server_id != rows[p].server_id);
            } else if q > p {
                assert(rows[p].server_id != rows[q].server_id);
            }
        },
        None => {},
    }
}

/// Recording a server afresh gives it the fresh row and leaves the row of
/// every other server as it was.
proof fn lemma_row_of_upserted(rows: Seq<InstanceView>, s: Seq<char>, url: Seq<char>, k: Seq<char>)
    requires
        table_wf(rows),
    ensures
        table_wf(row_upserted(rows, s, url)),
        row_of(row_upserted(rows, s, url), k) == if k == s {
            Some(fresh_row(s, url))
        } else {
            row_of(rows, k)
        },
{
    let fresh = fresh_row(s, url);
    let u = row_upserted(rows, s, url);
    lemma_row_position(rows, s);
    lemma_row_position(rows, k);
    match row_position(rows, s) {
        Some(p) => {
            lemma_update_wf(rows, p, fresh);
            assert(u == rows.update(p, fresh));
            if k == s {
                lemma_row_of_unique(u, s, p);
            } else {
                match row_position(rows, k) {
                    Some(q) => {
                        assert(u[q] == rows[q]);
                        lemma_row_of_unique(u, k, q);
                    },
                    None => {
                        lemma_row_position(u, k);
                        if row_position(u, k) is Some {
                            let q = row_position(u, k)->0;
                            if q != p {
                                assert(u[q] == rows[q]);
                            }
                        }
                    },
                }
            }
        },
        None => {
            let pos = sorted_position(rows, s);
            lemma_sorted_position(rows, s);
            lemma_insert_wf(rows, fresh);
            assert(u == rows.insert(pos, fresh));
            if k == s {
                assert(u[pos] == fresh);
                lemma_row_of_unique(u, s, pos);
            } else {
                match row_position(rows, k) {
                    Some(q) => {
                        if q < pos {
                            assert(u[q] == rows[q]);
                            lemma_row_of_unique(u, k, q);
                        } else {
                            assert(u[q + 1] == rows[q]);
                            lemma_row_of_unique(u, k, q + 1);
                        }
                    },
                    None => {
                        lemma_row_position(u, k);
                        if row_position(u, k) is Some {
                            let q = row_position(u, k)->0;
                            if q < pos {
                                assert(u[q] == rows[q]);
                            } else if q > pos {
                                assert(u[q] == rows[q - 1]);
                            }
                        }
                    },
                }
            }
        },
    }
}

/// After the start-up recording every configured server has its row, at its
/// configured address, free and without a job; the table stays well formed.
pub proof fn lemma_initialized_lists_config(rows: Seq<InstanceView>, config: Seq<ConfigEntry>)
    requires
        table_wf(rows),
        distinct_keys(config),
    ensures
        table_wf(initialized(rows, config)),
        forall|k: int|
            0 <= k < config.len() ==> #[trigger] row_of(initialized(rows, config), config[k].0)
                == Some(fresh_row(config[k].0, config[k].1)),
    decreases config.len(),
{
    if config.len() > 0 {
        let pre = config.drop_last();
        assert forall|i: int, j: int| 0 <= i < j < pre.len() implies pre[i].0 != pre[j].0 by {
            assert(pre[i] == config[i] && pre[j] == config[j]);
        }
        lemma_initialized_lists_config(rows, pre);
        let prev = initialized(rows, pre);
        let (s, u) = config.last();
        lemma_row_of_upserted(prev, s, u, s);
        assert forall|k: int| 0 <= k < config.len() implies #[trigger] row_of(
            initialized(rows, config),
            config[k].0,
        ) == Some(fresh_row(config[k].0, config[k].1)) by {
            lemma_row_of_upserted(prev, s, u, config[k].0);
            if k < config.len() - 1 {
                assert(config[k] == pre[k]);
                assert(config[k].0 != s);
            }
        }
    }
}

} // verus!
