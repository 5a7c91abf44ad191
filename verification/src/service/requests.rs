//! What clients ask for: each request is decided on first, and what became of it is told.
use super::access::{
    audited, authorize_run, found, halt, must_find, noted, permit_run,
};
use super::calls::{
    decision_in, done, endpoint_in, endpoints_in, many, network_in, networks_in, one, pools_in,
    realm_in, unit, Answer, Decision, Log, NetworkService, StoreCall, StoreCallView,
};
use super::cleanup::delete_realm_run;
use super::errors::{NetworkError, NetworkErrorView};
use super::networks::{
    change_network_run, create_canonical_network_run, create_network_run, delete_network_run,
    get_canonical_network_run, networks_of, shown,
};
use super::ports::{
    create_port_run, delete_port_run, get_port_run, list_ports_run, server_prefix,
};
use super::realms::{
    create_endpoint_run, create_pool_run, create_realm_run, list_realms_run,
};
use super::records::{
    CanonicalAddressPoolRecord, CanonicalAddressRealmRecord, CanonicalEndpointRecord,
    CanonicalNetworkRecord, NetworkRecord, NetworkRecordView, PortRecord, PortRecordView,
    SubnetRecord, SubnetRecordView,
};
use super::subnets::{
    create_subnet_run, delete_subnet_run, get_subnet_run, list_subnets_run, update_subnet_run,
};
use crate::model::view_opt;
use crate::session::Stop;
use crate::text::{is_blank, starts_with, text_starts_with, trim};
use crate::vocabulary::{qualified, qualified_of};
use vstd::prelude::*;

verus! {

impl NetworkService {
    /// Makes a network for a client.
    pub fn create_canonical_network(
        &mut self,
        scope: &str,
        name: String,
    ) -> (r: Result<CanonicalNetworkRecord, Stop<NetworkError>>)
        ensures
            (final(self)@, one(r)) == match authorize_run(
                scope@,
                "CreateNetwork"@,
                "network"@,
                None,
                None,
                old(self)@,
            ) {
                (t, Err(stop)) => (t, Err(stop)),
                (t, Ok(())) => audited(
                    scope@,
                    "CreateNetwork"@,
                    "network"@,
                    None,
                    create_canonical_network_run(scope@, name@, t),
                ),
            },
    {
        match self.authorize_canonical_action(scope, "CreateNetwork", "network", None, None) {
            Err(stop) => return Err(stop),
            Ok(()) => {},
        }
        let result = self.create_canonical_network_for_project(scope, name);
        self.audit_canonical_result(scope, "CreateNetwork", "network", None, result)
    }

    /// Finds a network for a client.
    pub fn get_canonical_network(
        &mut self,
        scope: &str,
        id: u128,
    ) -> (r: Result<CanonicalNetworkRecord, Stop<NetworkError>>)
        ensures
            (final(self)@, one(r)) == match authorize_run(
                scope@,
                "ReadNetwork"@,
                "network"@,
                Some(id),
                None,
                old(self)@,
            ) {
                (t, Err(stop)) => (t, Err(stop)),
                (t, Ok(())) => audited(
                    scope@,
                    "ReadNetwork"@,
                    "network"@,
                    Some(id),
                    get_canonical_network_run(scope@, id, t),
                ),
            },
    {
        match self.authorize_canonical_action(scope, "ReadNetwork", "network", Some(id), None) {
            Err(stop) => return Err(stop),
            Ok(()) => {},
        }
        let result = self.get_canonical_network_for_project(scope, id);
        self.audit_canonical_result(scope, "ReadNetwork", "network", Some(id), result)
    }

    /// Lists the networks of a client.
    pub fn list_canonical_networks(
        &mut self,
        scope: &str,
    ) -> (r: Result<Vec<CanonicalNetworkRecord>, Stop<NetworkError>>)
        ensures
            (final(self)@, many(r)) == match authorize_run(
                scope@,
                "ListNetworks"@,
                "network"@,
                None,
                None,
                old(self)@,
            ) {
                (t, Err(stop)) => (t, Err(stop)),
                (t, Ok(())) => audited(
                    scope@,
                    "ListNetworks"@,
                    "network"@,
                    None,
                    (t.after(StoreCallView::ListNetworks(scope@)), networks_in(t.reply())),
                ),
            },
    {
        match self.authorize_canonical_action(scope, "ListNetworks", "network", None, None) {
            Err(stop) => return Err(stop),
            Ok(()) => {},
        }
        let result = self.list_canonical_networks_for_project(scope);
        self.audit_canonical_result(scope, "ListNetworks", "network", None, result)
    }

    /// Removes a network for a client.
    pub fn delete_canonical_network(
        &mut self,
        scope: &str,
        id: u128,
    ) -> (r: Result<(), Stop<NetworkError>>)
        ensures
            (final(self)@, unit(r)) == match authorize_run(
                scope@,
                "DeleteNetwork"@,
                "network"@,
                Some(id),
                None,
                old(self)@,
            ) {
                (t, Err(stop)) => (t, Err(stop)),
                (t, Ok(())) => audited(
                    scope@,
                    "DeleteNetwork"@,
                    "network"@,
                    Some(id),
                    (t.after(StoreCallView::DeleteCanonicalNetwork(scope@, id)), done(t.reply())),
                ),
            },
    {
        match self.authorize_canonical_action(scope, "DeleteNetwork", "network", Some(id), None) {
            Err(stop) => return Err(stop),
            Ok(()) => {},
        }
        let result = self.delete_canonical_network_for_project(scope, id);
        self.audit_canonical_result(scope, "DeleteNetwork", "network", Some(id), result)
    }

    /// Makes a realm for a client.
    pub fn create_canonical_realm(
        &mut self,
        scope: &str,
        network_id: u128,
        prefix: &str,
        overlapping_prefixes: bool,
    ) -> (r: Result<CanonicalAddressRealmRecord, Stop<NetworkError>>)
        ensures
            (final(self)@, one(r)) == match authorize_run(
                scope@,
                "CreateAddressRealm"@,
                "address_realm"@,
                None,
                Some(("network"@, network_id)),
                old(self)@,
            ) {
                (t, Err(stop)) => (t, Err(stop)),
                (t, Ok(())) => audited(
                    scope@,
                    "CreateAddressRealm"@,
                    "address_realm"@,
                    None,
                    create_realm_run(scope@, network_id, prefix@, overlapping_prefixes, t),
                ),
            },
    {
        match self.authorize_canonical_action(scope, "CreateAddressRealm", "address_realm", None, Some(("network", network_id))) {
            Err(stop) => return Err(stop),
            Ok(()) => {},
        }
        let result = self.create_canonical_realm_for_project(scope, network_id, prefix, overlapping_prefixes);
        self.audit_canonical_result(scope, "CreateAddressRealm", "address_realm", None, result)
    }

    /// Lists the realms of a network for a client.
    pub fn list_canonical_realms(
        &mut self,
        scope: &str,
        network_id: u128,
    ) -> (r: Result<Vec<CanonicalAddressRealmRecord>, Stop<NetworkError>>)
        ensures
            (final(self)@, many(r)) == match authorize_run(
                scope@,
                "ListAddressRealms"@,
                "address_realm"@,
                None,
                Some(("network"@, network_id)),
                old(self)@,
            ) {
                (t, Err(stop)) => (t, Err(stop)),
                (t, Ok(())) => audited(
                    scope@,
                    "ListAddressRealms"@,
                    "address_realm"@,
                    None,
                    list_realms_run(scope@, network_id, t),
                ),
            },
    {
        match self.authorize_canonical_action(scope, "ListAddressRealms", "address_realm", None, Some(("network", network_id))) {
            Err(stop) => return Err(stop),
            Ok(()) => {},
        }
        let result = self.list_canonical_realms_for_project(scope, network_id);
        self.audit_canonical_result(scope, "ListAddressRealms", "address_realm", None, result)
    }

    /// Deletes a realm for a client.
    pub fn delete_canonical_realm(
        &mut self,
        scope: &str,
        realm_id: u128,
    ) -> (r: Result<(), Stop<NetworkError>>)
        ensures
            (final(self)@, unit(r)) == match authorize_run(
                scope@,
                "DeleteAddressRealm"@,
                "address_realm"@,
                Some(realm_id),
                None,
                old(self)@,
            ) {
                (t, Err(stop)) => (t, Err(stop)),
                (t, Ok(())) => audited(
                    scope@,
                    "DeleteAddressRealm"@,
                    "address_realm"@,
                    Some(realm_id),
                    delete_realm_run(scope@, realm_id, t),
                ),
            },
    {
        match self.authorize_canonical_action(scope, "DeleteAddressRealm", "address_realm", Some(realm_id), None) {
            Err(stop) => return Err(stop),
            Ok(()) => {},
        }
        let result = self.delete_canonical_realm_for_project(scope, realm_id);
        self.audit_canonical_result(scope, "DeleteAddressRealm", "address_realm", Some(realm_id), result)
    }

    /// Makes a pool for a client.
    pub fn create_canonical_pool(
        &mut self,
        scope: &str,
        realm_id: u128,
        prefix: &str,
        gateway: Option<u32>,
        first_usable: u32,
        last_usable: u32,
    ) -> (r: Result<CanonicalAddressPoolRecord, Stop<NetworkError>>)
        ensures
            (final(self)@, one(r)) == match authorize_run(
                scope@,
                "CreateAddressPool"@,
                "address_pool"@,
                None,
                Some(("address_realm"@, realm_id)),
                old(self)@,
            ) {
                (t, Err(stop)) => (t, Err(stop)),
                (t, Ok(())) => audited(
                    scope@,
                    "CreateAddressPool"@,
                    "address_pool"@,
                    None,
                    create_pool_run(scope@, realm_id, prefix@, gateway, first_usable, last_usable, t),
                ),
            },
    {
        match self.authorize_canonical_action(scope, "CreateAddressPool", "address_pool", None, Some(("address_realm", realm_id))) {
            Err(stop) => return Err(stop),
            Ok(()) => {},
        }
        let result = self.create_canonical_pool_for_project(scope, realm_id, prefix, gateway, first_usable, last_usable);
        self.audit_canonical_result(scope, "CreateAddressPool", "address_pool", None, result)
    }

    /// Lists the pools of a realm for a client.
    pub fn list_canonical_pools(
        &mut self,
        scope: &str,
        realm_id: u128,
    ) -> (r: Result<Vec<CanonicalAddressPoolRecord>, Stop<NetworkError>>)
        ensures
            (final(self)@, many(r)) == match authorize_run(
                scope@,
                "ListAddressPools"@,
                "address_pool"@,
                None,
                Some(("address_realm"@, realm_id)),
                old(self)@,
            ) {
                (t, Err(stop)) => (t, Err(stop)),
                (t, Ok(())) => audited(
                    scope@,
                    "ListAddressPools"@,
                    "address_pool"@,
                    None,
                    (t.after(StoreCallView::ListPools(scope@, realm_id)), pools_in(t.reply())),
                ),
            },
    {
        match self.authorize_canonical_action(scope, "ListAddressPools", "address_pool", None, Some(("address_realm", realm_id))) {
            Err(stop) => return Err(stop),
            Ok(()) => {},
        }
        let result = self.ask_pools(StoreCall::ListPools(scope.to_owned(), realm_id));
        self.audit_canonical_result(scope, "ListAddressPools", "address_pool", None, result)
    }

    /// Removes a pool for a client.
    pub fn delete_canonical_pool(
        &mut self,
        scope: &str,
        pool_id: u128,
    ) -> (r: Result<(), Stop<NetworkError>>)
        ensures
            (final(self)@, unit(r)) == match authorize_run(
                scope@,
                "DeleteAddressPool"@,
                "address_pool"@,
                Some(pool_id),
                None,
                old(self)@,
            ) {
                (t, Err(stop)) => (t, Err(stop)),
                (t, Ok(())) => audited(
                    scope@,
                    "DeleteAddressPool"@,
                    "address_pool"@,
                    Some(pool_id),
                    (t.after(StoreCallView::DeletePool(scope@, pool_id)), done(t.reply())),
                ),
            },
    {
        match self.authorize_canonical_action(scope, "DeleteAddressPool", "address_pool", Some(pool_id), None) {
            Err(stop) => return Err(stop),
            Ok(()) => {},
        }
        let result = self.perform(StoreCall::DeletePool(scope.to_owned(), pool_id));
        self.audit_canonical_result(scope, "DeleteAddressPool", "address_pool", Some(pool_id), result)
    }

    /// Makes an endpoint for a client.
    pub fn create_canonical_endpoint(
        &mut self,
        scope: &str,
        realm_id: u128,
        fixed_ip: u32,
        mac: String,
    ) -> (r: Result<CanonicalEndpointRecord, Stop<NetworkError>>)
        ensures
            (final(self)@, one(r)) == match authorize_run(
                scope@,
                "CreateEndpoint"@,
                "endpoint"@,
                None,
                Some(("address_realm"@, realm_id)),
                old(self)@,
            ) {
                (t, Err(stop)) => (t, Err(stop)),
                (t, Ok(())) => audited(
                    scope@,
                    "CreateEndpoint"@,
                    "endpoint"@,
                    None,
                    create_endpoint_run(scope@, realm_id, fixed_ip, mac@, t),
                ),
            },
    {
        match self.authorize_canonical_action(scope, "CreateEndpoint", "endpoint", None, Some(("address_realm", realm_id))) {
            Err(stop) => return Err(stop),
            Ok(()) => {},
        }
        let result = self.create_canonical_endpoint_for_project(scope, realm_id, fixed_ip, mac);
        self.audit_canonical_result(scope, "CreateEndpoint", "endpoint", None, result)
    }

    /// Lists the endpoints of a realm for a client.
    pub fn list_canonical_endpoints(
        &mut self,
        scope: &str,
        realm_id: u128,
    ) -> (r: Result<Vec<CanonicalEndpointRecord>, Stop<NetworkError>>)
        ensures
            (final(self)@, many(r)) == match authorize_run(
                scope@,
                "ListEndpoints"@,
                "endpoint"@,
                None,
                Some(("address_realm"@, realm_id)),
                old(self)@,
            ) {
                (t, Err(stop)) => (t, Err(stop)),
                (t, Ok(())) => audited(
                    scope@,
                    "ListEndpoints"@,
                    "endpoint"@,
                    None,
                    (t.after(StoreCallView::ListEndpoints(scope@, realm_id)), endpoints_in(t.reply())),
                ),
            },
    {
        match self.authorize_canonical_action(scope, "ListEndpoints", "endpoint", None, Some(("address_realm", realm_id))) {
            Err(stop) => return Err(stop),
            Ok(()) => {},
        }
        let result = self.ask_endpoints(StoreCall::ListEndpoints(scope.to_owned(), realm_id));
        self.audit_canonical_result(scope, "ListEndpoints", "endpoint", None, result)
    }

    /// Removes an endpoint for a client.
    pub fn delete_canonical_endpoint(
        &mut self,
        scope: &str,
        endpoint_id: u128,
    ) -> (r: Result<(), Stop<NetworkError>>)
        ensures
            (final(self)@, unit(r)) == match authorize_run(
                scope@,
                "DeleteEndpoint"@,
                "endpoint"@,
                Some(endpoint_id),
                None,
                old(self)@,
            ) {
                (t, Err(stop)) => (t, Err(stop)),
                (t, Ok(())) => audited(
                    scope@,
                    "DeleteEndpoint"@,
                    "endpoint"@,
                    Some(endpoint_id),
                    (t.after(StoreCallView::DeleteEndpoint(scope@, endpoint_id)), done(t.reply())),
                ),
            },
    {
        match self.authorize_canonical_action(scope, "DeleteEndpoint", "endpoint", Some(endpoint_id), None) {
            Err(stop) => return Err(stop),
            Ok(()) => {},
        }
        let result = self.perform(StoreCall::DeleteEndpoint(scope.to_owned(), endpoint_id));
        self.audit_canonical_result(scope, "DeleteEndpoint", "endpoint", Some(endpoint_id), result)
    }

    /// Makes a network within the quota of a client.
    pub fn create_network(
        &mut self,
        scope: &str,
        name: String,
    ) -> (r: Result<NetworkRecord, Stop<NetworkError>>)
        ensures
            (final(self)@, one(r)) == match permit_run(
                scope@,
                "CreateNetwork"@,
                "network"@,
                None,
                NetworkErrorView::Unauthorized,
                old(self)@,
            ) {
                (t, Err(stop)) => (t, Err(stop)),
                (t, Ok(())) => {
                    let step = create_network_run(scope@, name@, t);
                    noted(
                        scope@,
                        "CreateNetwork"@,
                        "network"@,
                        match step.1 {
                            Ok(record) => Some(record.id),
                            Err(_) => None,
                        },
                        step,
                    )
                },
            },
    {
        match self.permit(scope, "CreateNetwork", "network", None, NetworkError::Unauthorized) {
            Err(stop) => return Err(stop),
            Ok(()) => {},
        }
        let result = self.create_network_for_project(scope, name);
        let id: Option<u128> = match &result {
            Ok(record) => Some(record.id),
            Err(_) => None,
        };
        self.note_result(scope, "CreateNetwork", "network", id, result)
    }

    /// Lists the networks of a client as it sees them.
    pub fn list_networks(
        &mut self,
        scope: &str,
    ) -> (r: Result<Vec<NetworkRecord>, Stop<NetworkError>>)
        ensures
            (final(self)@, many(r)) == match permit_run(
                scope@,
                "ListNetworks"@,
                "network"@,
                None,
                NetworkErrorView::Unauthorized,
                old(self)@,
            ) {
                (t, Err(stop)) => (t, Err(stop)),
                (t, Ok(())) => (t.after(StoreCallView::ListNetworks(scope@)), networks_of(networks_in(t.reply()))),
            },
    {
        match self.permit(scope, "ListNetworks", "network", None, NetworkError::Unauthorized) {
            Err(stop) => return Err(stop),
            Ok(()) => {},
        }
        self.list_networks_for_project(scope)
    }

    /// Finds a network of a client as it sees it.
    pub fn get_network(
        &mut self,
        scope: &str,
        id: u128,
    ) -> (r: Result<NetworkRecord, Stop<NetworkError>>)
        ensures
            (final(self)@, one(r)) == match permit_run(
                scope@,
                "ReadNetwork"@,
                "network"@,
                Some(id),
                NetworkErrorView::NotFound,
                old(self)@,
            ) {
                (t, Err(stop)) => (t, Err(stop)),
                (t, Ok(())) => (t.after(StoreCallView::GetNetwork(scope@, id)), shown(found(network_in(t.reply())))),
            },
    {
        match self.permit(scope, "ReadNetwork", "network", Some(id), NetworkError::NotFound) {
            Err(stop) => return Err(stop),
            Ok(()) => {},
        }
        self.get_network_for_project(scope, id)
    }

    /// Removes a network of a client.
    pub fn delete_network(&mut self, scope: &str, id: u128) -> (r: Result<(), Stop<NetworkError>>)
        ensures
            (final(self)@, unit(r)) == match permit_run(
                scope@,
                "DeleteNetwork"@,
                "network"@,
                Some(id),
                NetworkErrorView::NotFound,
                old(self)@,
            ) {
                (t, Err(stop)) => (t, Err(stop)),
                (t, Ok(())) => noted(scope@, "DeleteNetwork"@, "network"@, Some(id), delete_network_run(scope@, id, t)),
            },
    {
        match self.permit(scope, "DeleteNetwork", "network", Some(id), NetworkError::NotFound) {
            Err(stop) => return Err(stop),
            Ok(()) => {},
        }
        let result = self.delete_network_for_project(scope, id);
        self.note_result(scope, "DeleteNetwork", "network", Some(id), result)
    }

    /// Makes a subnet within the quota of a client.
    pub fn create_subnet(
        &mut self,
        scope: &str,
        network_id: u128,
        name: String,
        cidr: &str,
        gateway_ip: Option<u32>,
        allocation_start: Option<u32>,
        allocation_end: Option<u32>,
    ) -> (r: Result<SubnetRecord, Stop<NetworkError>>)
        ensures
            (final(self)@, one(r)) == match permit_run(
                scope@,
                "CreateSubnet"@,
                "subnet"@,
                None,
                NetworkErrorView::Unauthorized,
                old(self)@,
            ) {
                (t, Err(stop)) => (t, Err(stop)),
                (t, Ok(())) => {
                    let step = create_subnet_run(scope@, network_id, name@, cidr@, gateway_ip, allocation_start, allocation_end, t);
                    noted(
                        scope@,
                        "CreateSubnet"@,
                        "subnet"@,
                        match step.1 {
                            Ok(record) => Some(record.id),
                            Err(_) => None,
                        },
                        step,
                    )
                },
            },
    {
        match self.permit(scope, "CreateSubnet", "subnet", None, NetworkError::Unauthorized) {
            Err(stop) => return Err(stop),
            Ok(()) => {},
        }
        let result = self.create_subnet_for_project(scope, network_id, name, cidr, gateway_ip, allocation_start, allocation_end);
        let id: Option<u128> = match &result {
            Ok(record) => Some(record.id),
            Err(_) => None,
        };
        self.note_result(scope, "CreateSubnet", "subnet", id, result)
    }

    /// Lists the subnets of a client.
    pub fn list_subnets(
        &mut self,
        scope: &str,
    ) -> (r: Result<Vec<SubnetRecord>, Stop<NetworkError>>)
        ensures
            (final(self)@, many(r)) == match permit_run(
                scope@,
                "ListSubnets"@,
                "subnet"@,
                None,
                NetworkErrorView::Unauthorized,
                old(self)@,
            ) {
                (t, Err(stop)) => (t, Err(stop)),
                (t, Ok(())) => list_subnets_run(scope@, t),
            },
    {
        match self.permit(scope, "ListSubnets", "subnet", None, NetworkError::Unauthorized) {
            Err(stop) => return Err(stop),
            Ok(()) => {},
        }
        self.list_subnets_for_project(scope)
    }

    /// Finds a subnet of a client.
    pub fn get_subnet(
        &mut self,
        scope: &str,
        id: u128,
    ) -> (r: Result<SubnetRecord, Stop<NetworkError>>)
        ensures
            (final(self)@, one(r)) == match permit_run(
                scope@,
                "ReadSubnet"@,
                "subnet"@,
                Some(id),
                NetworkErrorView::NotFound,
                old(self)@,
            ) {
                (t, Err(stop)) => (t, Err(stop)),
                (t, Ok(())) => get_subnet_run(scope@, id, t),
            },
    {
        match self.permit(scope, "ReadSubnet", "subnet", Some(id), NetworkError::NotFound) {
            Err(stop) => return Err(stop),
            Ok(()) => {},
        }
        self.get_subnet_for_project(scope, id)
    }

    /// Removes a subnet of a client.
    pub fn delete_subnet(&mut self, scope: &str, id: u128) -> (r: Result<(), Stop<NetworkError>>)
        ensures
            (final(self)@, unit(r)) == match permit_run(
                scope@,
                "DeleteSubnet"@,
                "subnet"@,
                Some(id),
                NetworkErrorView::NotFound,
                old(self)@,
            ) {
                (t, Err(stop)) => (t, Err(stop)),
                (t, Ok(())) => noted(scope@, "DeleteSubnet"@, "subnet"@, Some(id), delete_subnet_run(scope@, id, t)),
            },
    {
        match self.permit(scope, "DeleteSubnet", "subnet", Some(id), NetworkError::NotFound) {
            Err(stop) => return Err(stop),
            Ok(()) => {},
        }
        let result = self.delete_subnet_for_project(scope, id);
        self.note_result(scope, "DeleteSubnet", "subnet", Some(id), result)
    }

    /// Lists the ports of a client.
    pub fn list_ports(&mut self, scope: &str) -> (r: Result<Vec<PortRecord>, Stop<NetworkError>>)
        ensures
            (final(self)@, many(r)) == match permit_run(
                scope@,
                "ListPorts"@,
                "port"@,
                None,
                NetworkErrorView::Unauthorized,
                old(self)@,
            ) {
                (t, Err(stop)) => (t, Err(stop)),
                (t, Ok(())) => list_ports_run(scope@, t),
            },
    {
        match self.permit(scope, "ListPorts", "port", None, NetworkError::Unauthorized) {
            Err(stop) => return Err(stop),
            Ok(()) => {},
        }
        self.list_ports_for_project(scope)
    }

    /// Finds a port of a client.
    pub fn get_port(&mut self, scope: &str, id: u128) -> (r: Result<PortRecord, Stop<NetworkError>>)
        ensures
            (final(self)@, one(r)) == match permit_run(
                scope@,
                "ReadPort"@,
                "port"@,
                Some(id),
                NetworkErrorView::NotFound,
                old(self)@,
            ) {
                (t, Err(stop)) => (t, Err(stop)),
                (t, Ok(())) => get_port_run(scope@, id, t),
            },
    {
        match self.permit(scope, "ReadPort", "port", Some(id), NetworkError::NotFound) {
            Err(stop) => return Err(stop),
            Ok(()) => {},
        }
        self.get_port_for_project(scope, id)
    }

    /// Removes a port of a client.
    pub fn delete_port(&mut self, scope: &str, id: u128) -> (r: Result<(), Stop<NetworkError>>)
        ensures
            (final(self)@, unit(r)) == match permit_run(
                scope@,
                "DeletePort"@,
                "port"@,
                Some(id),
                NetworkErrorView::NotFound,
                old(self)@,
            ) {
                (t, Err(stop)) => (t, Err(stop)),
                (t, Ok(())) => noted(scope@, "DeletePort"@, "port"@, Some(id), delete_port_run(scope@, id, t)),
            },
    {
        match self.permit(scope, "DeletePort", "port", Some(id), NetworkError::NotFound) {
            Err(stop) => return Err(stop),
            Ok(()) => {},
        }
        let result = self.delete_port_for_project(scope, id);
        self.note_result(scope, "DeletePort", "port", Some(id), result)
    }

    /// Finds a realm for a client. A failure of the store is not told.
    pub fn get_canonical_realm(&mut self, scope: &str, realm_id: u128) -> (r: Result<CanonicalAddressRealmRecord, Stop<NetworkError>>)
        ensures
            (final(self)@, one(r)) == match authorize_run(
                scope@,
                "ReadAddressRealm"@,
                "address_realm"@,
                Some(realm_id),
                None,
                old(self)@,
            ) {
                (t, Err(stop)) => (t, Err(stop)),
                (t, Ok(())) => match realm_in(t.reply()) {
                    Err(stop) => (t.after(StoreCallView::GetRealm(scope@, realm_id)), Err(stop)),
                    Ok(v) => audited(
                        scope@,
                        "ReadAddressRealm"@,
                        "address_realm"@,
                        Some(realm_id),
                        (t.after(StoreCallView::GetRealm(scope@, realm_id)), found(Ok(v))),
                    ),
                },
            },
    {
        match self.authorize_canonical_action(scope, "ReadAddressRealm", "address_realm", Some(realm_id), None) {
            Err(stop) => return Err(stop),
            Ok(()) => {},
        }
        let result = match self.ask_realm(StoreCall::GetRealm(scope.to_owned(), realm_id)) {
            Err(stop) => return Err(stop),
            Ok(v) => must_find(Ok(v)),
        };
        self.audit_canonical_result(scope, "ReadAddressRealm", "address_realm", Some(realm_id), result)
    }

    /// Finds an endpoint for a client. A failure of the store is not told.
    pub fn get_canonical_endpoint(&mut self, scope: &str, endpoint_id: u128) -> (r: Result<CanonicalEndpointRecord, Stop<NetworkError>>)
        ensures
            (final(self)@, one(r)) == match authorize_run(
                scope@,
                "ReadEndpoint"@,
                "endpoint"@,
                Some(endpoint_id),
                None,
                old(self)@,
            ) {
                (t, Err(stop)) => (t, Err(stop)),
                (t, Ok(())) => match endpoint_in(t.reply()) {
                    Err(stop) => (t.after(StoreCallView::GetEndpoint(scope@, endpoint_id)), Err(stop)),
                    Ok(v) => audited(
                        scope@,
                        "ReadEndpoint"@,
                        "endpoint"@,
                        Some(endpoint_id),
                        (t.after(StoreCallView::GetEndpoint(scope@, endpoint_id)), found(Ok(v))),
                    ),
                },
            },
    {
        match self.authorize_canonical_action(scope, "ReadEndpoint", "endpoint", Some(endpoint_id), None) {
            Err(stop) => return Err(stop),
            Ok(()) => {},
        }
        let result = match self.ask_endpoint(StoreCall::GetEndpoint(scope.to_owned(), endpoint_id)) {
            Err(stop) => return Err(stop),
            Ok(v) => must_find(Ok(v)),
        };
        self.audit_canonical_result(scope, "ReadEndpoint", "endpoint", Some(endpoint_id), result)
    }

    /// Changes a network of a client. What is found to be wrong before anything is changed is not
    /// told.
    pub fn update_network(
        &mut self,
        scope: &str,
        id: u128,
        name: Option<String>,
        admin_state_up: Option<bool>,
    ) -> (r: Result<NetworkRecord, Stop<NetworkError>>)
        ensures
            (final(self)@, one(r)) == update_network_run(
                scope@,
                id,
                view_opt(name),
                admin_state_up,
                old(self)@,
            ),
    {
        match self.authorize_canonical_action(scope, "UpdateNetwork", "network", Some(id), None) {
            Err(stop) => return Err(stop),
            Ok(()) => {},
        }
        match &name {
            Some(n) => {
                if is_blank(n.as_str()) {
                    return Err(Stop::Failed(NetworkError::InvalidRequest));
                }
            },
            None => {},
        }
        let current = match self.get_canonical_network_for_project(scope, id) {
            Err(stop) => return Err(stop),
            Ok(current) => current,
        };
        let result = self.change_known_network(scope, id, current, name, admin_state_up);
        self.audit_canonical_result(scope, "UpdateNetwork", "network", Some(id), result)
    }

    /// Changes a subnet of a client. Its network, its prefix and its version stay.
    pub fn update_subnet(
        &mut self,
        scope: &str,
        id: u128,
        name: Option<String>,
        gateway_ip: Option<u32>,
        enable_dhcp: Option<bool>,
        network_id: Option<u128>,
        cidr: Option<String>,
        ip_version: Option<u8>,
    ) -> (r: Result<SubnetRecord, Stop<NetworkError>>)
        ensures
            (final(self)@, one(r)) == update_client_subnet_run(
                scope@,
                id,
                view_opt(name),
                gateway_ip,
                enable_dhcp,
                network_id is Some || cidr is Some || (ip_version is Some && ip_version != Some(
                    4u8,
                )),
                old(self)@,
            ),
    {
        let decision = match self.ask_decision(
            StoreCall::Authorize(
                qualified_of("UpdateSubnet"),
                qualified_of("subnet"),
                Some(id),
                scope.to_owned(),
            ),
        ) {
            Err(stop) => return Err(stop),
            Ok(decision) => decision,
        };
        match decision {
            Decision::Allowed => {},
            Decision::Malformed => return Err(Stop::Failed(NetworkError::InvalidRequest)),
            _ => return Err(Stop::Failed(NetworkError::NotFound)),
        }
        let other_version = match ip_version {
            Some(v) => v != 4,
            None => false,
        };
        if network_id.is_some() || cidr.is_some() || other_version {
            return Err(Stop::Failed(NetworkError::InvalidRequest));
        }
        self.update_subnet_for_project(scope, id, name, gateway_ip, enable_dhcp)
    }

    /// Makes a port within the quota of a client.
    pub fn create_port(&mut self, scope: &str, network_id: u128, name: String) -> (r: Result<
        PortRecord,
        Stop<NetworkError>,
    >)
        ensures
            (final(self)@, one(r)) == create_client_port_run(
                scope@,
                network_id,
                name@,
                None,
                old(self)@,
            ),
    {
        self.create_port_with_fixed_ip(scope, network_id, name, None)
    }

    /// Makes a port within the quota of a client, with the requested subnet and address where
    /// they are given.
    pub fn create_port_with_fixed_ip(
        &mut self,
        scope: &str,
        network_id: u128,
        name: String,
        requested_fixed_ip: Option<(u128, Option<u32>)>,
    ) -> (r: Result<PortRecord, Stop<NetworkError>>)
        ensures
            (final(self)@, one(r)) == create_client_port_run(
                scope@,
                network_id,
                name@,
                requested_fixed_ip,
                old(self)@,
            ),
    {
        if text_starts_with(name.as_str(), "o3k-server:") {
            return Err(Stop::Failed(NetworkError::InvalidRequest));
        }
        match self.permit(scope, "CreatePort", "port", None, NetworkError::Unauthorized) {
            Err(stop) => return Err(stop),
            Ok(()) => {},
        }
        let result = self.create_port_for_project_with_fixed_ip(
            scope,
            network_id,
            name,
            requested_fixed_ip,
        );
        let id: Option<u128> = match &result {
            Ok(record) => Some(record.id),
            Err(_) => None,
        };
        self.note_result(scope, "CreatePort", "port", id, result)
    }
}

/// Changes a network of a client.
pub open spec fn update_network_run(
    scope: Seq<char>,
    id: u128,
    name: Option<Seq<char>>,
    admin_state_up: Option<bool>,
    t: Log,
) -> (Log, Answer<NetworkRecordView>) {
    let (t1, allowed) = authorize_run(scope, "UpdateNetwork"@, "network"@, Some(id), None, t);
    match allowed {
        Err(stop) => (t1, Err(stop)),
        Ok(()) => if name matches Some(n) && trim(n).len() == 0 {
            (t1, halt(NetworkErrorView::InvalidRequest))
        } else {
            match found(network_in(t1.reply())) {
                Err(stop) => (t1.after(StoreCallView::GetNetwork(scope, id)), Err(stop)),
                Ok(_) => audited(
                    scope,
                    "UpdateNetwork"@,
                    "network"@,
                    Some(id),
                    change_network_run(scope, id, name, admin_state_up, t1),
                ),
            }
        },
    }
}

/// Changes a subnet of a client. A request to change what stays is refused.
pub open spec fn update_client_subnet_run(
    scope: Seq<char>,
    id: u128,
    name: Option<Seq<char>>,
    gateway_ip: Option<u32>,
    enable_dhcp: Option<bool>,
    fixed: bool,
    t: Log,
) -> (Log, Answer<SubnetRecordView>) {
    let t1 = t.after(
        StoreCallView::Authorize(qualified("UpdateSubnet"@), qualified("subnet"@), Some(id), scope),
    );
    match decision_in(t.reply()) {
        Err(stop) => (t1, Err(stop)),
        Ok(Decision::Malformed) => (t1, halt(NetworkErrorView::InvalidRequest)),
        Ok(Decision::Allowed) => if fixed {
            (t1, halt(NetworkErrorView::InvalidRequest))
        } else {
            update_subnet_run(scope, id, name, gateway_ip, enable_dhcp, t1)
        },
        Ok(_) => (t1, halt(NetworkErrorView::NotFound)),
    }
}

/// Makes a port for a client. The names of the ports of servers are not for clients.
pub open spec fn create_client_port_run(
    scope: Seq<char>,
    network_id: u128,
    name: Seq<char>,
    requested: Option<(u128, Option<u32>)>,
    t: Log,
) -> (Log, Answer<PortRecordView>) {
    if starts_with(name, server_prefix()) {
        (t, halt(NetworkErrorView::InvalidRequest))
    } else {
        let (t1, allowed) = permit_run(
            scope,
            "CreatePort"@,
            "port"@,
            None,
            NetworkErrorView::Unauthorized,
            t,
        );
        match allowed {
            Err(stop) => (t1, Err(stop)),
            Ok(()) => {
                let step = create_port_run(scope, network_id, name, requested, t1);
                noted(
                    scope,
                    "CreatePort"@,
                    "port"@,
                    match step.1 {
                        Ok(record) => Some(record.id),
                        Err(_) => None,
                    },
                    step,
                )
            },
        }
    }
}

} // verus!
