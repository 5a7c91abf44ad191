//! Gateways between realms.
use super::access::{found, halt, must_find};
use super::calls::{
    attachments_in, done, gateway_in, gateway_plan_in, gateways_in, id_in, many, one, realm_in, unit,
    updated_attachment_in, updated_gateway_in, Answer, Log, NetworkService, StoreCall,
    StoreCallView,
};
use super::errors::{NetworkError, NetworkErrorView};
use super::realms::get_realm_run;
use super::records::{
    CanonicalAddressPoolRecord, CanonicalAddressPoolRecordView, CanonicalAddressRealmRecord,
    CanonicalAddressRealmRecordView, CanonicalL3GatewayAttachmentRecord,
    CanonicalL3GatewayAttachmentRecordView, CanonicalL3GatewayRecord, CanonicalL3GatewayRecordView,
    GatewayGraph, GatewayGraphView,
};
use crate::domain::{EgressIntent, GatewayIntent};
use crate::ipv4::{prefix_value, prefix_value_of, Ipv4Prefix};
use crate::model::{copy_list, views, Model};
use crate::plan::types::{
    GatewayAttachment, L3GatewayExecutionPlan, L3GatewayExecutionPlanView,
};
use crate::session::Stop;
use crate::table::{find_id, id_get, id_put, put_id, ById};
use crate::text::{is_blank, same, trim};
use vstd::prelude::*;

verus! {

impl ById for CanonicalAddressRealmRecord {
    open spec fn id_of(v: CanonicalAddressRealmRecordView) -> u128 {
        v.id
    }

    fn id(&self) -> (r: u128) {
        self.id
    }
}

// ---------------------------------------------------------------------------
// Records
// ---------------------------------------------------------------------------

/// Checks that a realm can be found, where one is given.
pub open spec fn check_external_run(project_id: Seq<char>, realm_id: Option<u128>, t: Log) -> (
    Log,
    Answer<()>,
) {
    match realm_id {
        None => (t, Ok(())),
        Some(id) => (
            t.after(StoreCallView::GetRealm(project_id, id)),
            match found(realm_in(t.reply())) {
                Err(stop) => Err(stop),
                Ok(_) => Ok(()),
            },
        ),
    }
}

/// Makes a gateway. The realm that leads outside, where one is given, has to be there.
pub open spec fn create_gateway_run(
    project_id: Seq<char>,
    name: Seq<char>,
    external_realm_id: Option<u128>,
    enable_snat: bool,
    t: Log,
) -> (Log, Answer<CanonicalL3GatewayRecordView>) {
    if trim(name).len() == 0 {
        (t, halt(NetworkErrorView::InvalidRequest))
    } else {
        let (t1, checked) = check_external_run(project_id, external_realm_id, t);
        match checked {
            Err(stop) => (t1, Err(stop)),
            Ok(()) => {
                let t2 = t1.after(StoreCallView::NewId);
                match id_in(t1.reply()) {
                    Err(stop) => (t2, Err(stop)),
                    Ok(id) => {
                        let gateway = CanonicalL3GatewayRecordView {
                            id,
                            project_id,
                            name,
                            external_realm_id,
                            enable_snat,
                            generation: 1,
                            state: "active"@,
                        };
                        let t3 = t2.after(StoreCallView::InsertGateway(gateway));
                        match done(t2.reply()) {
                            Err(stop) => (t3, Err(stop)),
                            Ok(()) => (t3, Ok(gateway)),
                        }
                    },
                }
            },
        }
    }
}

/// Finds a gateway.
pub open spec fn get_gateway_run(project_id: Seq<char>, gateway_id: u128, t: Log) -> (
    Log,
    Answer<CanonicalL3GatewayRecordView>,
) {
    (t.after(StoreCallView::GetGateway(project_id, gateway_id)), found(gateway_in(t.reply())))
}

/// Whether a realm is among attachments.
pub open spec fn is_attached(
    attachments: Seq<CanonicalL3GatewayAttachmentRecordView>,
    realm_id: u128,
) -> bool {
    exists|i: int| 0 <= i < attachments.len() && (#[trigger] attachments[i]).realm_id == realm_id
}

fn attached(attachments: &Vec<CanonicalL3GatewayAttachmentRecord>, realm_id: u128) -> (r: bool)
    ensures
        r == is_attached(views(attachments@), realm_id),
{
    let ghost all = views(attachments@);
    for i in 0..attachments.len()
        invariant
            all == views(attachments@),
            forall|k: int| 0 <= k < i ==> (#[trigger] all[k]).realm_id != realm_id,
    {
        assert(all[i as int] == attachments@[i as int]@);
        if attachments[i].realm_id == realm_id {
            return true;
        }
    }
    false
}

/// Stores a new attachment.
pub open spec fn store_attachment_run(
    project_id: Seq<char>,
    gateway_id: u128,
    realm_id: u128,
    t: Log,
) -> (Log, Answer<CanonicalL3GatewayAttachmentRecordView>) {
    let t1 = t.after(StoreCallView::NewId);
    match id_in(t.reply()) {
        Err(stop) => (t1, Err(stop)),
        Ok(id) => {
            let attachment = CanonicalL3GatewayAttachmentRecordView {
                id,
                gateway_id,
                realm_id,
                project_id,
                generation: 1,
                state: "active"@,
            };
            let t2 = t1.after(StoreCallView::InsertAttachment(attachment));
            match done(t1.reply()) {
                Err(stop) => (t2, Err(stop)),
                Ok(()) => (t2, Ok(attachment)),
            }
        },
    }
}

/// Attaches a realm to an active gateway. A realm that is attached, or still being detached, is
/// not attached again.
pub open spec fn attach_run(project_id: Seq<char>, gateway_id: u128, realm_id: u128, t: Log) -> (
    Log,
    Answer<CanonicalL3GatewayAttachmentRecordView>,
) {
    let (t1, got) = get_gateway_run(project_id, gateway_id, t);
    match got {
        Err(stop) => (t1, Err(stop)),
        Ok(gateway) => if gateway.state != "active"@ {
            (t1, halt(NetworkErrorView::Conflict))
        } else {
            let (t2, realm) = get_realm_run(project_id, realm_id, t1);
            match realm {
                Err(stop) => (t2, Err(stop)),
                Ok(_) => {
                    let t3 = t2.after(StoreCallView::ListAttachments(project_id, gateway_id));
                    match attachments_in(t2.reply()) {
                        Err(stop) => (t3, Err(stop)),
                        Ok(attachments) => if is_attached(attachments, realm_id) {
                            (t3, halt(NetworkErrorView::Conflict))
                        } else {
                            store_attachment_run(project_id, gateway_id, realm_id, t3)
                        },
                    }
                },
            }
        },
    }
}

/// Changes a gateway.
pub open spec fn update_gateway_run(
    project_id: Seq<char>,
    gateway_id: u128,
    expected_generation: u64,
    name: Seq<char>,
    external_realm_id: Option<u128>,
    enable_snat: bool,
    t: Log,
) -> (Log, Answer<CanonicalL3GatewayRecordView>) {
    if trim(name).len() == 0 {
        (t, halt(NetworkErrorView::InvalidRequest))
    } else {
        let (t1, checked) = check_external_run(project_id, external_realm_id, t);
        match checked {
            Err(stop) => (t1, Err(stop)),
            Ok(()) => (
                t1.after(
                    StoreCallView::UpdateGateway(
                        project_id,
                        gateway_id,
                        expected_generation,
                        name,
                        external_realm_id,
                        enable_snat,
                    ),
                ),
                updated_gateway_in(t1.reply()),
            ),
        }
    }
}

impl NetworkService {
    fn check_external(&mut self, project_id: &str, realm_id: Option<u128>) -> (r: Result<
        (),
        Stop<NetworkError>,
    >)
        ensures
            (final(self)@, unit(r)) == check_external_run(project_id@, realm_id, old(self)@),
    {
        match realm_id {
            None => Ok(()),
            Some(id) => match self.get_canonical_realm_for_project(project_id, id) {
                Err(stop) => Err(stop),
                Ok(_) => Ok(()),
            },
        }
    }

    /// Performs [`create_gateway_run`].
    pub fn create_l3_gateway_for_project(
        &mut self,
        project_id: &str,
        name: String,
        external_realm_id: Option<u128>,
        enable_snat: bool,
    ) -> (r: Result<CanonicalL3GatewayRecord, Stop<NetworkError>>)
        ensures
            (final(self)@, one(r)) == create_gateway_run(
                project_id@,
                name@,
                external_realm_id,
                enable_snat,
                old(self)@,
            ),
    {
        if is_blank(name.as_str()) {
            return Err(Stop::Failed(NetworkError::InvalidRequest));
        }
        match self.check_external(project_id, external_realm_id) {
            Err(stop) => return Err(stop),
            Ok(()) => {},
        }
        let id: u128 = match self.ask_id(StoreCall::NewId) {
            Err(stop) => return Err(stop),
            Ok(id) => id,
        };
        let gateway = CanonicalL3GatewayRecord {
            id,
            project_id: project_id.to_owned(),
            name,
            external_realm_id,
            enable_snat,
            generation: 1,
            state: "active".to_owned(),
        };
        match self.perform(StoreCall::InsertGateway(gateway.copy())) {
            Err(stop) => Err(stop),
            Ok(()) => Ok(gateway),
        }
    }

    /// Lists the gateways of a project.
    pub fn list_l3_gateways_for_project(&mut self, project_id: &str) -> (r: Result<
        Vec<CanonicalL3GatewayRecord>,
        Stop<NetworkError>,
    >)
        ensures
            final(self)@ == old(self)@.after(StoreCallView::ListGateways(project_id@)),
            many(r) == gateways_in(old(self)@.reply()),
    {
        self.ask_gateways(StoreCall::ListGateways(project_id.to_owned()))
    }

    /// Performs [`get_gateway_run`].
    pub fn get_l3_gateway_for_project(&mut self, project_id: &str, gateway_id: u128) -> (r: Result<
        CanonicalL3GatewayRecord,
        Stop<NetworkError>,
    >)
        ensures
            (final(self)@, one(r)) == get_gateway_run(project_id@, gateway_id, old(self)@),
    {
        must_find(self.ask_gateway(StoreCall::GetGateway(project_id.to_owned(), gateway_id)))
    }

    /// Performs [`attach_run`].
    pub fn attach_l3_gateway_realm(&mut self, project_id: &str, gateway_id: u128, realm_id: u128)
        -> (r: Result<CanonicalL3GatewayAttachmentRecord, Stop<NetworkError>>)
        ensures
            (final(self)@, one(r)) == attach_run(
                project_id@,
                gateway_id,
                realm_id,
                old(self)@,
            ),
    {
        let gateway = match self.get_l3_gateway_for_project(project_id, gateway_id) {
            Err(stop) => return Err(stop),
            Ok(gateway) => gateway,
        };
        if !same(gateway.state.as_str(), "active") {
            return Err(Stop::Failed(NetworkError::Conflict));
        }
        match self.get_canonical_realm_for_project(project_id, realm_id) {
            Err(stop) => return Err(stop),
            Ok(_) => {},
        }
        let attachments = match self.ask_attachments(
            StoreCall::ListAttachments(project_id.to_owned(), gateway_id),
        ) {
            Err(stop) => return Err(stop),
            Ok(attachments) => attachments,
        };
        if attached(&attachments, realm_id) {
            return Err(Stop::Failed(NetworkError::Conflict));
        }
        let id: u128 = match self.ask_id(StoreCall::NewId) {
            Err(stop) => return Err(stop),
            Ok(id) => id,
        };
        let attachment = CanonicalL3GatewayAttachmentRecord {
            id,
            gateway_id,
            realm_id,
            project_id: project_id.to_owned(),
            generation: 1,
            state: "active".to_owned(),
        };
        match self.perform(StoreCall::InsertAttachment(attachment.copy())) {
            Err(stop) => Err(stop),
            Ok(()) => Ok(attachment),
        }
    }

    /// Performs [`update_gateway_run`].
    pub fn update_l3_gateway_for_project(
        &mut self,
        project_id: &str,
        gateway_id: u128,
        expected_generation: u64,
        name: String,
        external_realm_id: Option<u128>,
        enable_snat: bool,
    ) -> (r: Result<CanonicalL3GatewayRecord, Stop<NetworkError>>)
        ensures
            (final(self)@, one(r)) == update_gateway_run(
                project_id@,
                gateway_id,
                expected_generation,
                name@,
                external_realm_id,
                enable_snat,
                old(self)@,
            ),
    {
        if is_blank(name.as_str()) {
            return Err(Stop::Failed(NetworkError::InvalidRequest));
        }
        match self.check_external(project_id, external_realm_id) {
            Err(stop) => return Err(stop),
            Ok(()) => {},
        }
        self.ask_updated_gateway(
            StoreCall::UpdateGateway(
                project_id.to_owned(),
                gateway_id,
                expected_generation,
                name,
                external_realm_id,
                enable_snat,
            ),
        )
    }

    /// Marks a gateway as being deleted.
    pub fn delete_l3_gateway_for_project(
        &mut self,
        project_id: &str,
        gateway_id: u128,
        expected_generation: u64,
    ) -> (r: Result<CanonicalL3GatewayRecord, Stop<NetworkError>>)
        ensures
            final(self)@ == old(self)@.after(
                StoreCallView::BeginGatewayDeletion(project_id@, gateway_id, expected_generation),
            ),
            one(r) == updated_gateway_in(old(self)@.reply()),
    {
        self.ask_updated_gateway(
            StoreCall::BeginGatewayDeletion(
                project_id.to_owned(),
                gateway_id,
                expected_generation,
            ),
        )
    }

    /// Removes a gateway whose provider state was observed to be gone.
    pub fn finalize_l3_gateway_deletion_for_project(
        &mut self,
        project_id: &str,
        gateway_id: u128,
        expected_generation: u64,
    ) -> (r: Result<(), Stop<NetworkError>>)
        ensures
            final(self)@ == old(self)@.after(
                StoreCallView::FinalizeGatewayDeletion(
                    project_id@,
                    gateway_id,
                    expected_generation,
                ),
            ),
            unit(r) == done(old(self)@.reply()),
    {
        self.perform(
            StoreCall::FinalizeGatewayDeletion(
                project_id.to_owned(),
                gateway_id,
                expected_generation,
            ),
        )
    }

    /// Marks the attachment of a realm as being removed.
    pub fn detach_l3_gateway_realm(
        &mut self,
        project_id: &str,
        attachment_id: u128,
        expected_generation: u64,
    ) -> (r: Result<CanonicalL3GatewayAttachmentRecord, Stop<NetworkError>>)
        ensures
            final(self)@ == old(self)@.after(
                StoreCallView::BeginAttachmentDeletion(
                    project_id@,
                    attachment_id,
                    expected_generation,
                ),
            ),
            one(r) == updated_attachment_in(old(self)@.reply()),
    {
        self.ask_updated_attachment(
            StoreCall::BeginAttachmentDeletion(
                project_id.to_owned(),
                attachment_id,
                expected_generation,
            ),
        )
    }

    /// Removes the attachment of a realm whose provider state was observed to be gone.
    pub fn finalize_l3_gateway_realm_detachment_for_project(
        &mut self,
        project_id: &str,
        attachment_id: u128,
        expected_generation: u64,
    ) -> (r: Result<(), Stop<NetworkError>>)
        ensures
            final(self)@ == old(self)@.after(
                StoreCallView::FinalizeAttachmentDeletion(
                    project_id@,
                    attachment_id,
                    expected_generation,
                ),
            ),
            unit(r) == done(old(self)@.reply()),
    {
        self.perform(
            StoreCall::FinalizeAttachmentDeletion(
                project_id.to_owned(),
                attachment_id,
                expected_generation,
            ),
        )
    }

    /// Lists the realms that are attached to a gateway.
    pub fn list_l3_gateway_attachments(&mut self, project_id: &str, gateway_id: u128) -> (r: Result<
        Vec<CanonicalL3GatewayAttachmentRecord>,
        Stop<NetworkError>,
    >)
        ensures
            final(self)@ == old(self)@.after(
                StoreCallView::ListAttachments(project_id@, gateway_id),
            ),
            many(r) == attachments_in(old(self)@.reply()),
    {
        self.ask_attachments(StoreCall::ListAttachments(project_id.to_owned(), gateway_id))
    }
}

// ---------------------------------------------------------------------------
// What a gateway is realized from
// ---------------------------------------------------------------------------

/// Finds the attached realms from the attachment at `i` on. One that is not there is left out.
pub open spec fn attached_realms_run(
    project_id: Seq<char>,
    attachments: Seq<CanonicalL3GatewayAttachmentRecordView>,
    i: int,
    realms: Seq<CanonicalAddressRealmRecordView>,
    t: Log,
) -> (Log, Answer<Seq<CanonicalAddressRealmRecordView>>)
    decreases attachments.len() - i,
{
    if i < 0 || i >= attachments.len() {
        (t, Ok(realms))
    } else {
        let t1 = t.after(StoreCallView::GetRealm(project_id, attachments[i].realm_id));
        match realm_in(t.reply()) {
            Err(stop) => (t1, Err(stop)),
            Ok(None) => attached_realms_run(project_id, attachments, i + 1, realms, t1),
            Ok(Some(realm)) => attached_realms_run(
                project_id,
                attachments,
                i + 1,
                id_put::<CanonicalAddressRealmRecord>(realms, realm),
                t1,
            ),
        }
    }
}

/// Adds the realm that leads outside, where there is one. It has to be active.
pub open spec fn external_realm_run(
    project_id: Seq<char>,
    external: Option<u128>,
    realms: Seq<CanonicalAddressRealmRecordView>,
    t: Log,
) -> (Log, Answer<Seq<CanonicalAddressRealmRecordView>>) {
    match external {
        None => (t, Ok(realms)),
        Some(id) => {
            let (t1, got) = get_realm_run(project_id, id, t);
            match got {
                Err(stop) => (t1, Err(stop)),
                Ok(realm) => if realm.state != "active"@ {
                    (t1, halt(NetworkErrorView::Conflict))
                } else {
                    (t1, Ok(id_put::<CanonicalAddressRealmRecord>(realms, realm)))
                },
            }
        },
    }
}

/// Gathers what the plan of a gateway is compiled from. A gateway that is being deleted is gathered like an
/// active one, of the same generation: what is to be withdrawn is found that way.
pub open spec fn gateway_graph_run(project_id: Seq<char>, gateway_id: u128, t: Log) -> (
    Log,
    Answer<GatewayGraphView>,
) {
    let (t1, got) = get_gateway_run(project_id, gateway_id, t);
    match got {
        Err(stop) => (t1, Err(stop)),
        Ok(gateway) => if gateway.state != "active"@ && gateway.state != "deleting"@ {
            (t1, halt(NetworkErrorView::Conflict))
        } else {
            let t2 = t1.after(StoreCallView::ListAttachments(project_id, gateway_id));
            match attachments_in(t1.reply()) {
                Err(stop) => (t2, Err(stop)),
                Ok(attachments) => {
                    let (t3, inner) = attached_realms_run(
                        project_id,
                        attachments,
                        0,
                        Seq::empty(),
                        t2,
                    );
                    match inner {
                        Err(stop) => (t3, Err(stop)),
                        Ok(realms) => {
                            let (t4, outer) = external_realm_run(
                                project_id,
                                gateway.external_realm_id,
                                realms,
                                t3,
                            );
                            match outer {
                                Err(stop) => (t4, Err(stop)),
                                Ok(all) => (
                                    t4,
                                    Ok(
                                        GatewayGraphView {
                                            gateway: CanonicalL3GatewayRecordView {
                                                state: "active"@,
                                                ..gateway
                                            },
                                            attachments,
                                            realms: all,
                                        },
                                    ),
                                ),
                            }
                        },
                    }
                },
            }
        },
    }
}

/// The realms that a gateway connects: those of the relations that are active. One that is being
/// undone is left out.
pub open spec fn connections(attachments: Seq<CanonicalL3GatewayAttachmentRecordView>) -> Seq<
    GatewayAttachment,
>
    decreases attachments.len(),
{
    if attachments.len() == 0 {
        Seq::empty()
    } else {
        let before = connections(attachments.drop_last());
        if attachments.last().state == "active"@ {
            before.push(connection(attachments.last()))
        } else {
            before
        }
    }
}

/// The realm of a relation.
pub open spec fn connection(a: CanonicalL3GatewayAttachmentRecordView) -> GatewayAttachment {
    GatewayAttachment { attachment_id: a.id, realm_id: a.realm_id, generation: a.generation }
}

fn connections_of(attachments: &Vec<CanonicalL3GatewayAttachmentRecord>) -> (r: Vec<
    GatewayAttachment,
>)
    ensures
        views(r@) == connections(views(attachments@)),
{
    let ghost all = views(attachments@);
    let mut out: Vec<GatewayAttachment> = Vec::new();
    assert(views(out@) =~= connections(all.take(0)));
    for i in 0..attachments.len()
        invariant
            all == views(attachments@),
            views(out@) == connections(all.take(i as int)),
    {
        let ghost so_far = views(out@);
        let a = &attachments[i];
        assert(all[i as int] == a@);
        assert(all.take(i + 1).drop_last() =~= all.take(i as int));
        assert(all.take(i + 1).last() == a@);
        if same(a.state.as_str(), "active") {
            out.push(
                GatewayAttachment {
                    attachment_id: a.id,
                    realm_id: a.realm_id,
                    generation: a.generation,
                },
            );
            assert(views(out@) =~= so_far.push(connection(a@)));
        }
    }
    assert(all.take(all.len() as int) =~= all);
    out
}

/// Compiles the plan of a gateway. The compiler is handed all that was gathered and gives the
/// encoding of the plan, or refuses; what it refuses is an invalid request. The plan is of the
/// recorded gateway and generation and connects the realms whose relations are active.
pub open spec fn compile_gateway_run(project_id: Seq<char>, gateway_id: u128, t: Log) -> (
    Log,
    Answer<L3GatewayExecutionPlanView>,
) {
    let (t1, gathered) = gateway_graph_run(project_id, gateway_id, t);
    match gathered {
        Err(stop) => (t1, Err(stop)),
        Ok(graph) => (
            t1.after(StoreCallView::CompileGateway(graph)),
            match gateway_plan_in(t1.reply()) {
                Err(stop) => Err(stop),
                Ok(None) => halt(NetworkErrorView::InvalidRequest),
                Ok(Some(encoded)) => Ok(
                    L3GatewayExecutionPlanView {
                        gateway_id: graph.gateway.id,
                        gateway_generation: graph.gateway.generation,
                        attachments: connections(graph.attachments),
                        encoded,
                    },
                ),
            },
        ),
    }
}

impl NetworkService {
    fn attached_realms(
        &mut self,
        project_id: &str,
        attachments: &Vec<CanonicalL3GatewayAttachmentRecord>,
    ) -> (r: Result<Vec<CanonicalAddressRealmRecord>, Stop<NetworkError>>)
        ensures
            (final(self)@, many(r)) == attached_realms_run(
                project_id@,
                views(attachments@),
                0,
                Seq::empty(),
                old(self)@,
            ),
    {
        let mut realms: Vec<CanonicalAddressRealmRecord> = Vec::new();
        assert(views(realms@) =~= Seq::<CanonicalAddressRealmRecordView>::empty());
        let ghost all = views(attachments@);
        let ghost whole = attached_realms_run(project_id@, all, 0, Seq::empty(), self@);
        for i in 0..attachments.len()
            invariant
                all == views(attachments@),
                whole == attached_realms_run(project_id@, all, 0, Seq::empty(), old(self)@),
                whole == attached_realms_run(
                    project_id@,
                    all,
                    i as int,
                    views(realms@),
                    self@,
                ),
        {
            assert(all[i as int] == attachments@[i as int]@);
            match self.ask_realm(
                StoreCall::GetRealm(project_id.to_owned(), attachments[i].realm_id),
            ) {
                Err(stop) => return Err(stop),
                Ok(None) => {},
                Ok(Some(realm)) => {
                    put_id(&mut realms, realm);
                },
            }
        }
        Ok(realms)
    }

    fn gateway_graph(&mut self, project_id: &str, gateway_id: u128) -> (r: Result<
        GatewayGraph,
        Stop<NetworkError>,
    >)
        ensures
            (final(self)@, one(r)) == gateway_graph_run(project_id@, gateway_id, old(self)@),
    {
        let mut gateway = match self.get_l3_gateway_for_project(project_id, gateway_id) {
            Err(stop) => return Err(stop),
            Ok(gateway) => gateway,
        };
        if !same(gateway.state.as_str(), "active") && !same(gateway.state.as_str(), "deleting") {
            return Err(Stop::Failed(NetworkError::Conflict));
        }
        gateway.state = "active".to_owned();
        let attachments = match self.ask_attachments(
            StoreCall::ListAttachments(project_id.to_owned(), gateway_id),
        ) {
            Err(stop) => return Err(stop),
            Ok(attachments) => attachments,
        };
        let mut realms = match self.attached_realms(project_id, &attachments) {
            Err(stop) => return Err(stop),
            Ok(realms) => realms,
        };
        match gateway.external_realm_id {
            None => {},
            Some(id) => match self.get_canonical_realm_for_project(project_id, id) {
                Err(stop) => return Err(stop),
                Ok(realm) => {
                    if !same(realm.state.as_str(), "active") {
                        return Err(Stop::Failed(NetworkError::Conflict));
                    }
                    put_id(&mut realms, realm);
                },
            },
        }
        Ok(GatewayGraph { gateway, attachments, realms })
    }

    /// Performs [`compile_gateway_run`].
    pub fn compile_l3_gateway_execution_plan_for_project(
        &mut self,
        project_id: &str,
        gateway_id: u128,
    ) -> (r: Result<L3GatewayExecutionPlan, Stop<NetworkError>>)
        ensures
            (final(self)@, one(r)) == compile_gateway_run(project_id@, gateway_id, old(self)@),
    {
        let graph = match self.gateway_graph(project_id, gateway_id) {
            Err(stop) => return Err(stop),
            Ok(graph) => graph,
        };
        let gateway_id: u128 = graph.gateway.id;
        let gateway_generation: u64 = graph.gateway.generation;
        let attachments = connections_of(&graph.attachments);
        match self.ask_gateway_plan(StoreCall::CompileGateway(graph)) {
            Err(stop) => Err(stop),
            Ok(None) => Err(Stop::Failed(NetworkError::InvalidRequest)),
            Ok(Some(encoded)) => Ok(
                L3GatewayExecutionPlan { gateway_id, gateway_generation, attachments, encoded },
            ),
        }
    }
}

// ---------------------------------------------------------------------------
// Routing intents
// ---------------------------------------------------------------------------

/// A realm and its prefix.
#[derive(Clone, Copy, Debug, PartialEq, Eq, Structural)]
pub struct RealmPrefix {
    pub realm_id: u128,
    pub prefix: Ipv4Prefix,
}

impl View for RealmPrefix {
    type V = RealmPrefix;

    open spec fn view(&self) -> RealmPrefix {
        *self
    }
}

impl Model for RealmPrefix {
    fn copy(&self) -> (r: Self) {
        *self
    }

    fn same_as(&self, other: &Self) -> (r: bool) {
        *self == *other
    }
}

impl ById for RealmPrefix {
    open spec fn id_of(v: RealmPrefix) -> u128 {
        v.realm_id
    }

    fn id(&self) -> (r: u128) {
        self.realm_id
    }
}

/// An identifier of an attached realm.
#[derive(Clone, Copy, Debug, PartialEq, Eq, Structural)]
pub struct AttachedRealm {
    pub realm_id: u128,
}

impl View for AttachedRealm {
    type V = AttachedRealm;

    open spec fn view(&self) -> AttachedRealm {
        *self
    }
}

impl Model for AttachedRealm {
    fn copy(&self) -> (r: Self) {
        *self
    }

    fn same_as(&self, other: &Self) -> (r: bool) {
        *self == *other
    }
}

impl ById for AttachedRealm {
    open spec fn id_of(v: AttachedRealm) -> u128 {
        v.realm_id
    }

    fn id(&self) -> (r: u128) {
        self.realm_id
    }
}

/// The pools of a realm.
#[derive(Clone, Debug, PartialEq, Eq)]
pub struct RealmPools {
    pub realm_id: u128,
    pub pools: Vec<CanonicalAddressPoolRecord>,
}

/// The view of [`RealmPools`].
#[verifier::ext_equal]
pub struct RealmPoolsView {
    pub realm_id: u128,
    pub pools: Seq<CanonicalAddressPoolRecordView>,
}

impl View for RealmPools {
    type V = RealmPoolsView;

    open spec fn view(&self) -> RealmPoolsView {
        RealmPoolsView { realm_id: self.realm_id, pools: views(self.pools@) }
    }
}

impl Model for RealmPools {
    fn copy(&self) -> (r: Self) {
        RealmPools { realm_id: self.realm_id, pools: copy_list(&self.pools) }
    }

    fn same_as(&self, other: &Self) -> (r: bool) {
        self.realm_id == other.realm_id && crate::model::same_list(&self.pools, &other.pools)
    }
}

impl ById for RealmPools {
    open spec fn id_of(v: RealmPoolsView) -> u128 {
        v.realm_id
    }

    fn id(&self) -> (r: u128) {
        self.realm_id
    }
}

/// The routing of one attached realm.
#[derive(Clone, Debug, PartialEq, Eq)]
pub struct GatewayIntents {
    pub realm_id: u128,
    pub routes: Vec<GatewayIntent>,
    pub egress: Vec<EgressIntent>,
}

/// The view of [`GatewayIntents`].
#[verifier::ext_equal]
pub struct GatewayIntentsView {
    pub realm_id: u128,
    pub routes: Seq<GatewayIntent>,
    pub egress: Seq<EgressIntent>,
}

impl View for GatewayIntents {
    type V = GatewayIntentsView;

    open spec fn view(&self) -> GatewayIntentsView {
        GatewayIntentsView { realm_id: self.realm_id, routes: self.routes@, egress: self.egress@ }
    }
}

/// The prefixes of the active realms of the gateway's project, added to those in `known`, from
/// the realm at `i` on. There are none where a prefix cannot be read.
pub open spec fn realm_prefixes(
    gateway: CanonicalL3GatewayRecordView,
    realms: Seq<CanonicalAddressRealmRecordView>,
    i: int,
    known: Seq<RealmPrefix>,
) -> Option<Seq<RealmPrefix>>
    decreases realms.len() - i,
{
    if i < 0 || i >= realms.len() {
        Some(known)
    } else if realms[i].project_id != gateway.project_id || realms[i].state != "active"@ {
        realm_prefixes(gateway, realms, i + 1, known)
    } else {
        match prefix_value(realms[i].prefix) {
            None => None,
            Some(prefix) => realm_prefixes(
                gateway,
                realms,
                i + 1,
                id_put::<RealmPrefix>(known, RealmPrefix { realm_id: realms[i].id, prefix }),
            ),
        }
    }
}

/// The realms that are actively attached to the gateway, each once and in order, added to those
/// in `known`, from the attachment at `i` on.
pub open spec fn active_realms(
    gateway: CanonicalL3GatewayRecordView,
    attachments: Seq<CanonicalL3GatewayAttachmentRecordView>,
    i: int,
    known: Seq<AttachedRealm>,
) -> Seq<AttachedRealm>
    decreases attachments.len() - i,
{
    if i < 0 || i >= attachments.len() {
        known
    } else if attachments[i].project_id == gateway.project_id && attachments[i].state
        == "active"@ {
        active_realms(
            gateway,
            attachments,
            i + 1,
            id_put::<AttachedRealm>(known, AttachedRealm { realm_id: attachments[i].realm_id }),
        )
    } else {
        active_realms(gateway, attachments, i + 1, known)
    }
}

/// The first gateway address of pools, from the pool at `i` on.
pub open spec fn pool_gateway(pools: Seq<CanonicalAddressPoolRecordView>, i: int) -> Option<u32>
    decreases pools.len() - i,
{
    if i < 0 || i >= pools.len() {
        None
    } else if pools[i].gateway is Some {
        pools[i].gateway
    } else {
        pool_gateway(pools, i + 1)
    }
}

/// The address by which the hosts of a realm reach the gateway: that of a pool of the realm, or
/// else the first one behind the address of the network.
pub open spec fn local_gateway(prefix: Ipv4Prefix, pools: Option<RealmPoolsView>) -> Option<u32> {
    let of_pool = match pools {
        Some(p) => pool_gateway(p.pools, 0),
        None => None,
    };
    match of_pool {
        Some(g) => Some(g),
        None => if prefix.network == u32::MAX {
            None
        } else {
            Some((prefix.network + 1) as u32)
        },
    }
}

/// The routes to the other attached realms from the one at `i` on. There are none where the
/// prefix of one is not known.
pub open spec fn remote_routes(
    realm_id: u128,
    gateway: u32,
    attached: Seq<AttachedRealm>,
    prefixes: Seq<RealmPrefix>,
    i: int,
    known: Seq<GatewayIntent>,
) -> Option<Seq<GatewayIntent>>
    decreases attached.len() - i,
{
    if i < 0 || i >= attached.len() {
        Some(known)
    } else if attached[i].realm_id == realm_id {
        remote_routes(realm_id, gateway, attached, prefixes, i + 1, known)
    } else {
        match id_get::<RealmPrefix>(prefixes, attached[i].realm_id) {
            None => None,
            Some(remote) => remote_routes(
                realm_id,
                gateway,
                attached,
                prefixes,
                i + 1,
                known.push(
                    GatewayIntent { destination: remote.prefix, gateway, external: false },
                ),
            ),
        }
    }
}

/// The way outside.
pub open spec fn egress_of(gateway: CanonicalL3GatewayRecordView) -> Seq<EgressIntent> {
    match gateway.external_realm_id {
        None => Seq::empty(),
        Some(external_realm_id) => seq![
            EgressIntent { external_realm_id, enabled: true, nat: gateway.enable_snat },
        ],
    }
}

/// The routing of the attached realms from the one at `i` on.
pub open spec fn realm_intents(
    gateway: CanonicalL3GatewayRecordView,
    attached: Seq<AttachedRealm>,
    prefixes: Seq<RealmPrefix>,
    pools: Seq<RealmPoolsView>,
    i: int,
    known: Seq<GatewayIntentsView>,
) -> Result<Seq<GatewayIntentsView>, NetworkErrorView>
    decreases attached.len() - i,
{
    if i < 0 || i >= attached.len() {
        Ok(known)
    } else {
        let realm_id = attached[i].realm_id;
        match id_get::<RealmPrefix>(prefixes, realm_id) {
            None => Err(NetworkErrorView::NotFound),
            Some(local) => match local_gateway(
                local.prefix,
                id_get::<RealmPools>(pools, realm_id),
            ) {
                None => Err(NetworkErrorView::InvalidRequest),
                Some(address) => match remote_routes(
                    realm_id,
                    address,
                    attached,
                    prefixes,
                    0,
                    Seq::empty(),
                ) {
                    None => Err(NetworkErrorView::NotFound),
                    Some(routes) => realm_intents(
                        gateway,
                        attached,
                        prefixes,
                        pools,
                        i + 1,
                        known.push(
                            GatewayIntentsView { realm_id, routes, egress: egress_of(gateway) },
                        ),
                    ),
                },
            },
        }
    }
}

/// The routing that a gateway gives to the realms that are attached to it: each reaches all
/// others, and the outside where the gateway has a way there.
pub open spec fn gateway_intents(
    gateway: CanonicalL3GatewayRecordView,
    attachments: Seq<CanonicalL3GatewayAttachmentRecordView>,
    realms: Seq<CanonicalAddressRealmRecordView>,
    pools: Seq<RealmPoolsView>,
) -> Result<Seq<GatewayIntentsView>, NetworkErrorView> {
    if gateway.state != "active"@ || gateway.generation == 0 {
        Err(NetworkErrorView::InvalidRequest)
    } else {
        match realm_prefixes(gateway, realms, 0, Seq::empty()) {
            None => Err(NetworkErrorView::InvalidRequest),
            Some(prefixes) => realm_intents(
                gateway,
                active_realms(gateway, attachments, 0, Seq::empty()),
                prefixes,
                pools,
                0,
                Seq::empty(),
            ),
        }
    }
}

fn realm_prefixes_of(gateway: &CanonicalL3GatewayRecord, realms: &Vec<CanonicalAddressRealmRecord>)
    -> (r: Option<Vec<RealmPrefix>>)
    ensures
        match r {
            Some(v) => realm_prefixes(gateway@, views(realms@), 0, Seq::empty()) == Some(
                views(v@),
            ),
            None => realm_prefixes(gateway@, views(realms@), 0, Seq::empty()) is None,
        },
{
    let mut known: Vec<RealmPrefix> = Vec::new();
    assert(views(known@) =~= Seq::<RealmPrefix>::empty());
    let ghost all = views(realms@);
    for i in 0..realms.len()
        invariant
            all == views(realms@),
            realm_prefixes(gateway@, all, 0, Seq::empty()) == realm_prefixes(
                gateway@,
                all,
                i as int,
                views(known@),
            ),
    {
        assert(all[i as int] == realms@[i as int]@);
        let realm = &realms[i];
        if same(realm.project_id.as_str(), gateway.project_id.as_str()) && same(
            realm.state.as_str(),
            "active",
        ) {
            match prefix_value_of(realm.prefix.as_str()) {
                None => return None,
                Some(prefix) => {
                    put_id(&mut known, RealmPrefix { realm_id: realm.id, prefix });
                },
            }
        }
    }
    Some(known)
}

fn active_realms_of(
    gateway: &CanonicalL3GatewayRecord,
    attachments: &Vec<CanonicalL3GatewayAttachmentRecord>,
) -> (r: Vec<AttachedRealm>)
    ensures
        views(r@) == active_realms(gateway@, views(attachments@), 0, Seq::empty()),
{
    let mut known: Vec<AttachedRealm> = Vec::new();
    assert(views(known@) =~= Seq::<AttachedRealm>::empty());
    let ghost all = views(attachments@);
    for i in 0..attachments.len()
        invariant
            all == views(attachments@),
            active_realms(gateway@, all, 0, Seq::empty()) == active_realms(
                gateway@,
                all,
                i as int,
                views(known@),
            ),
    {
        assert(all[i as int] == attachments@[i as int]@);
        let a = &attachments[i];
        if same(a.project_id.as_str(), gateway.project_id.as_str()) && same(
            a.state.as_str(),
            "active",
        ) {
            put_id(&mut known, AttachedRealm { realm_id: a.realm_id });
        }
    }
    known
}

fn pool_gateway_of(pools: &Vec<CanonicalAddressPoolRecord>) -> (r: Option<u32>)
    ensures
        r == pool_gateway(views(pools@), 0),
{
    let ghost all = views(pools@);
    for i in 0..pools.len()
        invariant
            all == views(pools@),
            pool_gateway(all, 0) == pool_gateway(all, i as int),
    {
        assert(all[i as int] == pools@[i as int]@);
        if pools[i].gateway.is_some() {
            return pools[i].gateway;
        }
    }
    None
}

fn local_gateway_of(prefix: Ipv4Prefix, pools: &Vec<RealmPools>, realm_id: u128) -> (r: Option<u32>)
    ensures
        r == local_gateway(prefix, id_get::<RealmPools>(views(pools@), realm_id)),
{
    let of_pool: Option<u32> = match find_id(pools, realm_id) {
        Some(k) => pool_gateway_of(&pools[k].pools),
        None => None,
    };
    match of_pool {
        Some(g) => Some(g),
        None => if prefix.network == u32::MAX {
            None
        } else {
            Some(prefix.network + 1)
        },
    }
}

fn remote_routes_of(
    realm_id: u128,
    gateway: u32,
    attached: &Vec<AttachedRealm>,
    prefixes: &Vec<RealmPrefix>,
) -> (r: Option<Vec<GatewayIntent>>)
    ensures
        match r {
            Some(v) => remote_routes(
                realm_id,
                gateway,
                views(attached@),
                views(prefixes@),
                0,
                Seq::empty(),
            ) == Some(v@),
            None => remote_routes(
                realm_id,
                gateway,
                views(attached@),
                views(prefixes@),
                0,
                Seq::empty(),
            ) is None,
        },
{
    let mut routes: Vec<GatewayIntent> = Vec::new();
    let ghost all = views(attached@);
    for i in 0..attached.len()
        invariant
            all == views(attached@),
            remote_routes(realm_id, gateway, all, views(prefixes@), 0, Seq::empty())
                == remote_routes(
                realm_id,
                gateway,
                all,
                views(prefixes@),
                i as int,
                routes@,
            ),
    {
        assert(all[i as int] == attached@[i as int]@);
        let remote_id: u128 = attached[i].realm_id;
        if remote_id != realm_id {
            match find_id(prefixes, remote_id) {
                None => return None,
                Some(k) => {
                    routes.push(
                        GatewayIntent {
                            destination: prefixes[k].prefix,
                            gateway,
                            external: false,
                        },
                    );
                },
            }
        }
    }
    Some(routes)
}

fn egress_list(gateway: &CanonicalL3GatewayRecord) -> (r: Vec<EgressIntent>)
    ensures
        r@ == egress_of(gateway@),
{
    let mut out: Vec<EgressIntent> = Vec::new();
    match gateway.external_realm_id {
        None => {},
        Some(external_realm_id) => {
            out.push(
                EgressIntent { external_realm_id, enabled: true, nat: gateway.enable_snat },
            );
        },
    }
    assert(out@ =~= egress_of(gateway@));
    out
}

/// Computes [`gateway_intents`].
pub fn compile_l3_gateway_intents(
    gateway: &CanonicalL3GatewayRecord,
    attachments: &Vec<CanonicalL3GatewayAttachmentRecord>,
    realms: &Vec<CanonicalAddressRealmRecord>,
    pools: &Vec<RealmPools>,
) -> (r: Result<Vec<GatewayIntents>, NetworkError>)
    ensures
        match r {
            Ok(v) => gateway_intents(
                gateway@,
                views(attachments@),
                views(realms@),
                views(pools@),
            ) == Ok::<Seq<GatewayIntentsView>, NetworkErrorView>(views(v@)),
            Err(e) => gateway_intents(
                gateway@,
                views(attachments@),
                views(realms@),
                views(pools@),
            ) == Err::<Seq<GatewayIntentsView>, NetworkErrorView>(e@),
        },
{
    if !same(gateway.state.as_str(), "active") || gateway.generation == 0 {
        return Err(NetworkError::InvalidRequest);
    }
    let prefixes = match realm_prefixes_of(gateway, realms) {
        None => return Err(NetworkError::InvalidRequest),
        Some(prefixes) => prefixes,
    };
    let attached = active_realms_of(gateway, attachments);
    let mut out: Vec<GatewayIntents> = Vec::new();
    assert(views(out@) =~= Seq::<GatewayIntentsView>::empty());
    let ghost all = views(attached@);
    let ghost whole = realm_intents(
        gateway@,
        all,
        views(prefixes@),
        views(pools@),
        0,
        Seq::empty(),
    );
    for i in 0..attached.len()
        invariant
            all == views(attached@),
            whole == gateway_intents(
                gateway@,
                views(attachments@),
                views(realms@),
                views(pools@),
            ),
            whole == realm_intents(
                gateway@,
                all,
                views(prefixes@),
                views(pools@),
                i as int,
                views(out@),
            ),
    {
        assert(all[i as int] == attached@[i as int]@);
        let realm_id: u128 = attached[i].realm_id;
        let local = match find_id(&prefixes, realm_id) {
            None => return Err(NetworkError::NotFound),
            Some(k) => prefixes[k].prefix,
        };
        let address: u32 = match local_gateway_of(local, pools, realm_id) {
            None => return Err(NetworkError::InvalidRequest),
            Some(address) => address,
        };
        let routes = match remote_routes_of(realm_id, address, &attached, &prefixes) {
            None => return Err(NetworkError::NotFound),
            Some(routes) => routes,
        };
        let intents = GatewayIntents { realm_id, routes, egress: egress_list(gateway) };
        let ghost so_far = views(out@);
        let ghost v = intents@;
        out.push(intents);
        assert(views(out@) =~= so_far.push(v));
    }
    Ok(out)
}

// ---------------------------------------------------------------------------
// Laws
// ---------------------------------------------------------------------------

/// Whether a list of routes leads to a prefix by a gateway.
pub open spec fn leads_to(routes: Seq<GatewayIntent>, prefix: Ipv4Prefix, gateway: u32) -> bool {
    exists|k: int|
        0 <= k < routes.len() && #[trigger] routes[k] == (GatewayIntent {
            destination: prefix,
            gateway,
            external: false,
        })
}

/// Whether a list of routes leads to a realm whose prefix is known.
pub open spec fn reaches(
    routes: Seq<GatewayIntent>,
    remote: Option<RealmPrefix>,
    gateway: u32,
) -> bool {
    remote matches Some(r) && leads_to(routes, r.prefix, gateway)
}

/// From an attached realm there is a route to every other attached realm from the one at `i` on,
/// and the routes that were there stay.
pub proof fn lemma_routes_reach_others(
    realm_id: u128,
    gateway: u32,
    attached: Seq<AttachedRealm>,
    prefixes: Seq<RealmPrefix>,
    i: int,
    known: Seq<GatewayIntent>,
    j: int,
)
    requires
        0 <= i <= attached.len(),
        remote_routes(realm_id, gateway, attached, prefixes, i, known) is Some,
    ensures
        ({
            let routes = remote_routes(realm_id, gateway, attached, prefixes, i, known)->Some_0;
            &&& known.len() <= routes.len()
            &&& routes.take(known.len() as int) == known
            &&& i <= j < attached.len() && attached[j].realm_id != realm_id ==> reaches(
                routes,
                id_get::<RealmPrefix>(prefixes, attached[j].realm_id),
                gateway,
            )
        }),
    decreases attached.len() - i,
{
    if i < attached.len() {
        if attached[i].realm_id == realm_id {
            lemma_routes_reach_others(realm_id, gateway, attached, prefixes, i + 1, known, j);
        } else {
            let remote = id_get::<RealmPrefix>(prefixes, attached[i].realm_id)->Some_0;
            let route = GatewayIntent { destination: remote.prefix, gateway, external: false };
            let next = known.push(route);
            lemma_routes_reach_others(realm_id, gateway, attached, prefixes, i + 1, next, j);
            let routes = remote_routes(
                realm_id,
                gateway,
                attached,
                prefixes,
                i,
                known,
            )->Some_0;
            let n = known.len() as int;
            assert(routes[n] == routes.take(n + 1)[n]);
            assert(routes.take(n) =~= routes.take(n + 1).take(n));
            assert(next.take(n) =~= known);
        }
    } else {
        assert(known.take(known.len() as int) =~= known);
    }
}

/// Whether a plan connects the realm of a relation.
pub open spec fn connects(
    plan: L3GatewayExecutionPlanView,
    a: CanonicalL3GatewayAttachmentRecordView,
) -> bool {
    plan.attachments.contains(connection(a))
}

proof fn lemma_connections(attachments: Seq<CanonicalL3GatewayAttachmentRecordView>)
    ensures
        forall|c: GatewayAttachment|
            connections(attachments).contains(c) <==> exists|k: int|
                0 <= k < attachments.len() && (#[trigger] attachments[k]).state == "active"@
                    && connection(attachments[k]) == c,
    decreases attachments.len(),
{
    if attachments.len() > 0 {
        let head = attachments.drop_last();
        let last = attachments.last();
        let before = connections(head);
        let all = connections(attachments);
        lemma_connections(head);
        assert forall|c: GatewayAttachment| all.contains(c) <==> exists|k: int|
            0 <= k < attachments.len() && (#[trigger] attachments[k]).state == "active"@
                && connection(attachments[k]) == c by {
            if all.contains(c) {
                let i = choose|i: int| 0 <= i < all.len() && all[i] == c;
                if i < before.len() {
                    assert(before[i] == c);
                    assert(before.contains(c));
                    let k = choose|k: int|
                        0 <= k < head.len() && (#[trigger] head[k]).state == "active"@
                            && connection(head[k]) == c;
                    assert(attachments[k] == head[k]);
                } else {
                    assert(attachments[attachments.len() - 1] == last);
                }
            }
            if exists|k: int|
                0 <= k < attachments.len() && (#[trigger] attachments[k]).state == "active"@
                    && connection(attachments[k]) == c {
                let k = choose|k: int|
                    0 <= k < attachments.len() && (#[trigger] attachments[k]).state == "active"@
                        && connection(attachments[k]) == c;
                if k < head.len() {
                    assert(head[k] == attachments[k]);
                    assert(before.contains(c));
                    let i = choose|i: int| 0 <= i < before.len() && before[i] == c;
                    assert(all[i] == c);
                } else {
                    assert(all[all.len() - 1] == c);
                }
            }
        }
    }
}

/// The plan of a gateway connects exactly the realms whose relations are active: what is being
/// detached is left out, though its relation is still recorded.
pub proof fn lemma_plan_leaves_out_what_is_detached(
    project_id: Seq<char>,
    gateway_id: u128,
    t: Log,
)
    requires
        compile_gateway_run(project_id, gateway_id, t).1 is Ok,
    ensures
        ({
            let plan = compile_gateway_run(project_id, gateway_id, t).1->Ok_0;
            let recorded = attachments_in(get_gateway_run(project_id, gateway_id, t).0.reply());
            &&& recorded is Ok
            &&& forall|k: int|
                0 <= k < recorded->Ok_0.len() && (#[trigger] recorded->Ok_0[k]).state == "active"@
                    ==> connects(plan, recorded->Ok_0[k])
            &&& forall|c: GatewayAttachment| #[trigger]
                plan.attachments.contains(c) ==> exists|k: int|
                    0 <= k < recorded->Ok_0.len() && (#[trigger] recorded->Ok_0[k]).state
                        == "active"@ && connection(recorded->Ok_0[k]) == c
            &&& (forall|k: int|
                0 <= k < recorded->Ok_0.len() ==> (#[trigger] recorded->Ok_0[k]).state
                    != "active"@) ==> plan.attachments.len() == 0
        }),
{
    let plan = compile_gateway_run(project_id, gateway_id, t).1->Ok_0;
    let recorded = attachments_in(get_gateway_run(project_id, gateway_id, t).0.reply())->Ok_0;
    lemma_connections(recorded);
    assert(plan.attachments == connections(recorded));
    if plan.attachments.len() > 0 {
        assert(plan.attachments.contains(plan.attachments[0]));
    }
}

/// The plan of a gateway is of the recorded gateway and its generation, also while the gateway is
/// being deleted: what is handed to the compiler differs from the record in the state alone.
pub proof fn lemma_deleting_gateway_keeps_generation(
    project_id: Seq<char>,
    gateway_id: u128,
    t: Log,
)
    requires
        gateway_graph_run(project_id, gateway_id, t).1 is Ok,
    ensures
        ({
            let graph = gateway_graph_run(project_id, gateway_id, t).1->Ok_0;
            let recorded = get_gateway_run(project_id, gateway_id, t).1->Ok_0;
            &&& graph.gateway == (CanonicalL3GatewayRecordView { state: "active"@, ..recorded })
            &&& compile_gateway_run(project_id, gateway_id, t).1 matches Ok(plan)
                ==> plan.gateway_id == recorded.id && plan.gateway_generation
                == recorded.generation
        }),
{
}

/// What the compiler refuses is an invalid request.
pub proof fn lemma_refused_gateway_is_invalid(project_id: Seq<char>, gateway_id: u128, t: Log)
    requires
        gateway_graph_run(project_id, gateway_id, t).1 is Ok,
        gateway_plan_in(gateway_graph_run(project_id, gateway_id, t).0.reply()) == Ok::<
            Option<Seq<char>>,
            Stop<NetworkErrorView>,
        >(None),
    ensures
        compile_gateway_run(project_id, gateway_id, t).1 == halt::<L3GatewayExecutionPlanView>(
            NetworkErrorView::InvalidRequest,
        ),
{
}

} // verus!
