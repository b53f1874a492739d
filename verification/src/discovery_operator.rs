//! The discovery operator of one configuration.
//!
//! The operator holds the configuration, the table of registered discovery
//! handlers and the configuration's instances. It decides; it performs no
//! input or output. Each of its operations takes what was observed (the
//! devices a handler reported, the time) and returns what is to be done
//! (device plugins to build, list-and-watch loops to notify, instances to
//! terminate and delete).

use crate::configuration::Configuration;
use crate::device::Device;
use crate::digest::{
    get_device_instance_name, inner_generate_instance_digest, instance_digest, instance_name,
};
use crate::instance::{
    actions_after, actions_view, apply_decisions, decide_connectivity, decide_sweep,
    entries_after, lemma_entries_after, sweep_rule, update_rule, ConnectivityDecision,
    InstanceAction, InstanceEntries, InstanceInfo, InstanceMap,
};
use crate::ordered_map::{
    entries_view, has_key, key_set, value_of, with_entry, without_key, OrderedMap,
};
use crate::registration::{
    after_unreachable, deregisters, handlers_of, with_status, DiscoveryHandlerConnectivityStatus,
    DiscoveryHandlerDetails, HandlerEntries, RegisteredDiscoveryHandlerMap,
};
use vstd::prelude::*;

verus! {

/// A device plugin to build for a device that has no instance yet.
#[derive(Debug)]
pub struct BuildRequest {
    /// Name of the instance to create.
    pub instance_name: String,
    /// True when the device is visible to other nodes too.
    pub shared: bool,
    pub device: Device,
}

/// The model of a list of build requests: instance names with their devices.
pub open spec fn requests_view(requests: Seq<BuildRequest>) -> Seq<(Seq<char>, Device)> {
    Seq::new(requests.len(), |i: int| (requests[i].instance_name@, requests[i].device))
}

/// What handling a discovery response calls for.
#[derive(Debug)]
pub struct DiscoveryOutcome {
    /// Number of instances that the response makes visible.
    pub visible_instances: usize,
    /// Notifications and terminations for the instances already known, in
    /// the order of the instance map.
    pub actions: Vec<InstanceAction>,
    /// Device plugins to build, to be attempted after the actions.
    pub new_devices: Vec<BuildRequest>,
}

/// Message with which listening ends when a stream ends unasked.
pub const UNEXPECTED_END: &'static str = "unexpected end";

/// What comes while the operator listens to a discovery handler's stream.
#[derive(Debug)]
pub enum StreamEvent {
    /// The handler's sessions were told to stop.
    Stop,
    /// The handler sent the devices that it sees now.
    Response(Vec<Device>),
    /// The stream ended.
    End,
    /// The transport failed, with this message.
    Error(String),
}

/// What listening to a stream does next.
#[derive(Debug)]
pub enum DiscoverStep {
    /// Carry out what handling the response calls for, then listen on.
    Continue(DiscoveryOutcome),
    /// Stop listening: after a stop signal without error, else with the
    /// error's message.
    Finished(Result<(), String>),
}

/// The instances that a response makes visible, by name. Where several
/// devices give one name, the name stands where it first came and holds
/// the device that came last.
pub open spec fn visible_instances(
    config_name: Seq<char>,
    devices: Seq<Device>,
    is_local: bool,
    node_name: Seq<char>,
) -> Seq<(Seq<char>, Device)>
    decreases devices.len(),
{
    if devices.len() == 0 {
        Seq::empty()
    } else {
        let device = devices.last();
        with_entry(
            visible_instances(config_name, devices.drop_last(), is_local, node_name),
            instance_name(config_name, instance_digest(device.id@, !is_local, node_name)),
            device,
        )
    }
}

/// The visible instances that have no entry in `instances`, in order.
pub open spec fn new_instances(
    visible: Seq<(Seq<char>, Device)>,
    instances: InstanceEntries,
) -> Seq<(Seq<char>, Device)>
    decreases visible.len(),
{
    if visible.len() == 0 {
        Seq::empty()
    } else {
        let before = new_instances(visible.drop_last(), instances);
        if has_key(instances, visible.last().0) {
            before
        } else {
            before.push(visible.last())
        }
    }
}

/// The endpoints of a list of handlers.
pub open spec fn endpoints_of(
    handlers: Seq<(Seq<char>, DiscoveryHandlerDetails)>,
) -> Seq<Seq<char>> {
    Seq::new(handlers.len(), |i: int| handlers[i].0)
}

/// The texts of a list of strings.
pub open spec fn texts(strings: Seq<String>) -> Seq<Seq<char>> {
    Seq::new(strings.len(), |i: int| strings[i]@)
}

/// The discovery operator of one configuration.
#[derive(Debug)]
pub struct DiscoveryOperator {
    discovery_handler_map: RegisteredDiscoveryHandlerMap,
    config: Configuration,
    instance_map: InstanceMap,
    device_plugin_path: String,
}

impl DiscoveryOperator {
    /// The table of registered discovery handlers.
    pub closed spec fn handlers(&self) -> HandlerEntries {
        self.discovery_handler_map@
    }

    /// The instances of the configuration.
    pub closed spec fn instances(&self) -> InstanceEntries {
        self.instance_map@
    }

    /// The configuration.
    pub closed spec fn configuration(&self) -> Configuration {
        self.config
    }

    /// The directory in which device plugins place their sockets.
    pub closed spec fn plugin_path(&self) -> Seq<char> {
        self.device_plugin_path@
    }

    /// The key under which the handler at `endpoint` is registered for this
    /// operator's protocol.
    pub open spec fn handler_key(&self, endpoint: Seq<char>) -> (Seq<char>, Seq<char>) {
        (self.configuration().protocol@, endpoint)
    }

    /// True when `other` holds what `self` holds.
    pub open spec fn same_as(&self, other: &Self) -> bool {
        &&& other.handlers() == self.handlers()
        &&& other.instances() == self.instances()
        &&& other.configuration() == self.configuration()
        &&& other.plugin_path() == self.plugin_path()
    }

    /// True when `other` differs from `self` in nothing but the instances.
    pub open spec fn same_but_instances(&self, other: &Self) -> bool {
        &&& other.handlers() == self.handlers()
        &&& other.configuration() == self.configuration()
        &&& other.plugin_path() == self.plugin_path()
    }

    /// True when `other` differs from `self` in nothing but the handler table.
    pub open spec fn same_but_handlers(&self, other: &Self) -> bool {
        &&& other.instances() == self.instances()
        &&& other.configuration() == self.configuration()
        &&& other.plugin_path() == self.plugin_path()
    }

    /// An operator for `config` that starts from the given table of
    /// handlers and instances.
    pub fn new(
        discovery_handler_map: RegisteredDiscoveryHandlerMap,
        config: Configuration,
        instance_map: InstanceMap,
        device_plugin_path: String,
    ) -> (operator: Self)
        ensures
            operator.handlers() == discovery_handler_map@,
            operator.configuration() == config,
            operator.instances() == instance_map@,
            operator.plugin_path() == device_plugin_path@,
    {
        DiscoveryOperator { discovery_handler_map, config, instance_map, device_plugin_path }
    }

    /// Gives up the operator for what it was made with, as it stands now:
    /// the table of handlers, the configuration, the instances and the
    /// directory for device plugin sockets.
    pub fn into_parts(
        self,
    ) -> (parts: (RegisteredDiscoveryHandlerMap, Configuration, InstanceMap, String))
        ensures
            parts.0@ == self.handlers(),
            parts.1 == self.configuration(),
            parts.2@ == self.instances(),
            parts.3@ == self.plugin_path(),
    {
        (self.discovery_handler_map, self.config, self.instance_map, self.device_plugin_path)
    }

    /// The table of registered discovery handlers.
    pub fn get_discovery_handler_map(&self) -> (map: &RegisteredDiscoveryHandlerMap)
        ensures
            map@ == self.handlers(),
    {
        &self.discovery_handler_map
    }

    /// The configuration.
    pub fn get_config(&self) -> (config: &Configuration)
        ensures
            *config == self.configuration(),
    {
        &self.config
    }

    /// The instances of the configuration.
    pub fn get_instance_map(&self) -> (map: &InstanceMap)
        ensures
            map@ == self.instances(),
    {
        &self.instance_map
    }

    /// The directory in which device plugins place their sockets.
    pub fn get_device_plugin_path(&self) -> (path: &String)
        ensures
            path@ == self.plugin_path(),
    {
        &self.device_plugin_path
    }

    /// Sets the connectivity of the handler of this operator's protocol at
    /// `endpoint`. Does nothing when no such handler is registered. For a
    /// handler that could not be reached, use
    /// `mark_offline_or_deregister_discovery_handler`.
    pub fn set_discovery_handler_connectivity_status(
        &mut self,
        endpoint: &str,
        connectivity_status: DiscoveryHandlerConnectivityStatus,
    )
        ensures
            final(self).handlers() == with_status(
                old(self).handlers(),
                old(self).handler_key(endpoint@),
                connectivity_status,
            ),
            old(self).same_but_handlers(final(self)),
    {
        self.discovery_handler_map.update_status(
            self.config.protocol.as_str(),
            endpoint,
            connectivity_status,
        );
    }

    /// Records that the handler at `endpoint` could not be reached at `now`:
    /// an online handler goes offline, and one that has been offline for
    /// longer than the grace period is deregistered. Returns whether the
    /// handler was deregistered.
    pub fn mark_offline_or_deregister_discovery_handler(
        &mut self,
        endpoint: &str,
        now: u64,
    ) -> (deregistered: bool)
        ensures
            final(self).handlers() == after_unreachable(
                old(self).handlers(),
                old(self).handler_key(endpoint@),
                now,
            ),
            deregistered == deregisters(
                old(self).handlers(),
                old(self).handler_key(endpoint@),
                now,
            ),
            old(self).same_but_handlers(final(self)),
    {
        self.discovery_handler_map.mark_offline_or_deregister(
            self.config.protocol.as_str(),
            endpoint,
            now,
        )
    }

    /// Records an instance, as its device plugin does once it is built.
    pub fn upsert_instance(&mut self, instance_name: String, info: InstanceInfo)
        ensures
            final(self).instances() == with_entry(old(self).instances(), instance_name@, info),
            old(self).same_but_instances(final(self)),
    {
        self.instance_map.insert(instance_name, info);
    }

    /// Forgets an instance, as its device plugin does when it terminates.
    /// Does nothing when the instance is already gone.
    pub fn remove_instance(&mut self, instance_name: &str)
        ensures
            final(self).instances() == without_key(old(self).instances(), instance_name@),
            old(self).same_but_instances(final(self)),
    {
        let _ = self.instance_map.remove(&instance_name.to_owned());
    }

    /// Sweeps the instances at `now`: removes those that have been offline
    /// for the grace period and returns a termination for each. Online
    /// instances, and those offline for less, stay as they are.
    pub fn check_offline_status(&mut self, now: u64) -> (actions: Vec<InstanceAction>)
        ensures
            final(self).instances() == entries_after(old(self).instances(), sweep_rule(now), now),
            actions_view(actions@) == actions_after(old(self).instances(), sweep_rule(now)),
            old(self).same_but_instances(final(self)),
    {
        let mut decisions: Vec<ConnectivityDecision> = Vec::new();
        let mut i: usize = 0;
        while i < self.instance_map.len()
            invariant
                i <= self.instance_map@.len(),
                decisions@.len() == i,
                forall|j: int|
                    0 <= j < i ==> #[trigger] decisions@[j] == sweep_rule(now)(
                        self.instance_map@[j].0,
                        self.instance_map@[j].1,
                    ),
            decreases self.instance_map@.len() - i,
        {
            decisions.push(decide_sweep(self.instance_map.value_at(i).connectivity_status, now));
            i += 1;
        }
        apply_decisions(&mut self.instance_map, &decisions, now, Ghost(sweep_rule(now)))
    }

    /// Brings the connectivity of the instances up to date with the
    /// instances that are visible now. A visible instance that was offline
    /// goes online. An instance that is no longer visible is removed when
    /// it is online and local, goes offline when it is online and shared,
    /// and is removed when it has been offline for the grace period.
    /// Returns a notification for each instance whose connectivity changed
    /// and a termination for each one removed.
    pub fn update_connectivity_status<T>(
        &mut self,
        currently_visible_instances: &OrderedMap<String, T>,
        is_local: bool,
        now: u64,
    ) -> (actions: Vec<InstanceAction>)
        ensures
            final(self).instances() == entries_after(
                old(self).instances(),
                update_rule(key_set(currently_visible_instances@), is_local, now),
                now,
            ),
            actions_view(actions@) == actions_after(
                old(self).instances(),
                update_rule(key_set(currently_visible_instances@), is_local, now),
            ),
            old(self).same_but_instances(final(self)),
    {
        let ghost rule = update_rule(key_set(currently_visible_instances@), is_local, now);
        let mut decisions: Vec<ConnectivityDecision> = Vec::new();
        let mut i: usize = 0;
        while i < self.instance_map.len()
            invariant
                i <= self.instance_map@.len(),
                decisions@.len() == i,
                rule == update_rule(key_set(currently_visible_instances@), is_local, now),
                forall|j: int|
                    0 <= j < i ==> #[trigger] decisions@[j] == rule(
                        self.instance_map@[j].0,
                        self.instance_map@[j].1,
                    ),
            decreases self.instance_map@.len() - i,
        {
            let visible = currently_visible_instances.contains_key(self.instance_map.key_at(i));
            decisions.push(
                decide_connectivity(
                    self.instance_map.value_at(i).connectivity_status,
                    visible,
                    is_local,
                    now,
                ),
            );
            i += 1;
        }
        apply_decisions(&mut self.instance_map, &decisions, now, Ghost(rule))
    }

    /// The instances that `devices` make visible under this operator's
    /// configuration.
    pub open spec fn visible(
        &self,
        devices: Seq<Device>,
        is_local: bool,
        node_name: Seq<char>,
    ) -> Seq<(Seq<char>, Device)> {
        visible_instances(self.configuration().name@, devices, is_local, node_name)
    }

    /// What handling the devices reported at `now` does: `after` is the
    /// operator afterwards and `outcome` what is returned.
    ///
    /// The connectivity of the known instances is brought up to date with
    /// the names that are visible, with the notifications and terminations
    /// that this calls for; a device plugin is requested for each visible
    /// name that had no instance, as shared exactly when the handler's
    /// devices are not local; and the count tells how many names are visible.
    pub open spec fn handles(
        &self,
        after: &Self,
        devices: Seq<Device>,
        is_local: bool,
        node_name: Seq<char>,
        now: u64,
        outcome: DiscoveryOutcome,
    ) -> bool {
        let visible = self.visible(devices, is_local, node_name);
        let rule = update_rule(key_set(visible), is_local, now);
        &&& outcome.visible_instances == visible.len()
        &&& after.instances() == entries_after(self.instances(), rule, now)
        &&& actions_view(outcome.actions@) == actions_after(self.instances(), rule)
        &&& requests_view(outcome.new_devices@) == new_instances(visible, self.instances())
        &&& forall|i: int|
            0 <= i < outcome.new_devices@.len() ==> (#[trigger] outcome.new_devices@[i]).shared
                == !is_local
        &&& self.same_but_instances(after)
    }

    /// Handles the devices that a discovery handler reported at `now`.
    /// `is_local` says whether the handler's devices are visible to this
    /// node only, and `node_name` names this node.
    ///
    /// Each device is named after the configuration and the digest of its
    /// id. The connectivity of the known instances is brought up to date
    /// with the names that are visible, and a device plugin is requested
    /// for each visible name that had no instance.
    pub fn handle_discovery_results(
        &mut self,
        discovery_results: Vec<Device>,
        is_local: bool,
        node_name: &str,
        now: u64,
    ) -> (outcome: DiscoveryOutcome)
        ensures
            old(self).handles(
                final(self),
                discovery_results@,
                is_local,
                node_name@,
                now,
                outcome,
            ),
    {
        let ghost devices = discovery_results@;
        let ghost config_name = self.config.name@;
        let ghost known = self.instance_map@;
        let mut currently_visible_instances: OrderedMap<String, Device> = OrderedMap::new();
        for device in it: discovery_results
            invariant
                it.seq() == devices,
                config_name == self.config.name@,
                currently_visible_instances@ == visible_instances(
                    config_name,
                    devices.take(it.index() as int),
                    is_local,
                    node_name@,
                ),
        {
            proof {
                let upto = devices.take(it.index() + 1);
                assert(upto.drop_last() =~= devices.take(it.index() as int));
                assert(upto.last() == device);
            }
            let id = inner_generate_instance_digest(device.id.as_str(), !is_local, node_name);
            let instance_name = get_device_instance_name(id.as_str(), self.config.name.as_str());
            currently_visible_instances.insert(instance_name, device);
        }
        assert(devices.take(devices.len() as int) =~= devices);
        let ghost visible = currently_visible_instances@;
        let ghost rule = update_rule(key_set(visible), is_local, now);
        let visible_instances = currently_visible_instances.len();
        proof {
            use_type_invariant(&self.instance_map);
        }
        let actions = self.update_connectivity_status(&currently_visible_instances, is_local, now);
        proof {
            lemma_entries_after(known, rule, now);
        }
        let entries = currently_visible_instances.into_entries();
        let ghost after = self.instance_map@;
        let mut new_devices: Vec<BuildRequest> = Vec::new();
        for entry in it: entries
            invariant
                entries_view(it.seq()) == visible,
                after == self.instance_map@,
                after == entries_after(known, rule, now),
                rule == update_rule(key_set(visible), is_local, now),
                forall|name: Seq<char>| #[trigger]
                    has_key(after, name) <==> has_key(known, name) && rule(
                        name,
                        value_of(known, name),
                    ) != ConnectivityDecision::Removed,
                requests_view(new_devices@) == new_instances(
                    visible.take(it.index() as int),
                    known,
                ),
                forall|i: int|
                    0 <= i < new_devices@.len() ==> (#[trigger] new_devices@[i]).shared
                        == !is_local,
        {
            let ghost index = it.index() as int;
            let ghost before = requests_view(new_devices@);
            proof {
                let upto = visible.take(index + 1);
                assert(upto.drop_last() =~= visible.take(index));
                assert(upto.last() == visible[index]);
                assert(visible[index] == (entry.0@, entry.1));
                assert(has_key(visible, entry.0@));
                assert(has_key(after, entry.0@) == has_key(known, entry.0@));
            }
            let (instance_name, device) = entry;
            if !self.instance_map.contains_key(&instance_name) {
                new_devices.push(BuildRequest { instance_name, shared: !is_local, device });
                assert(requests_view(new_devices@) =~= before.push(visible[index]));
            }
        }
        assert(visible.take(visible.len() as int) =~= visible);
        DiscoveryOutcome { visible_instances, actions, new_devices }
    }

    /// The endpoints of the handlers of this operator's protocol, in the
    /// order of registration: the handlers whose sessions are told to stop
    /// when discovery for the configuration ends.
    pub fn stop_all_discovery(&self) -> (endpoints: Vec<String>)
        ensures
            texts(endpoints@) == endpoints_of(
                handlers_of(self.handlers(), self.configuration().protocol@),
            ),
    {
        let handlers = self.discovery_handler_map.snapshot(self.config.protocol.as_str());
        let mut endpoints: Vec<String> = Vec::new();
        for handler in it: handlers
            invariant
                entries_view(it.seq()) == handlers_of(
                    self.handlers(),
                    self.configuration().protocol@,
                ),
                texts(endpoints@) == endpoints_of(entries_view(it.seq())).take(it.index() as int),
        {
            let ghost before = texts(endpoints@);
            endpoints.push(handler.0);
            assert(texts(endpoints@) =~= before.push(handler.0@));
            assert(endpoints_of(entries_view(it.seq())).take(it.index() + 1) =~= before.push(
                handler.0@,
            ));
        }
        assert(texts(endpoints@) =~= endpoints_of(
            handlers_of(self.handlers(), self.configuration().protocol@),
        ));
        endpoints
    }

    /// One step of listening to a discovery handler's stream: takes what
    /// came (a stop signal, a response, the end of the stream or an error)
    /// and says whether to go on listening or how the listening ended.
    /// A response is handled as a discovery result, local or not as the
    /// handler registered itself.
    pub fn internal_do_discover(
        &mut self,
        dh_details: &DiscoveryHandlerDetails,
        event: StreamEvent,
        node_name: &str,
        now: u64,
    ) -> (step: DiscoverStep)
        ensures
            match event {
                StreamEvent::Stop => step matches DiscoverStep::Finished(Ok(_)) && old(
                    self,
                ).same_as(final(self)),
                StreamEvent::Response(devices) => step matches DiscoverStep::Continue(outcome)
                    && old(self).handles(
                    final(self),
                    devices@,
                    dh_details.register_request.is_local,
                    node_name@,
                    now,
                    outcome,
                ),
                StreamEvent::End => step matches DiscoverStep::Finished(Err(message))
                    && message@ == UNEXPECTED_END@ && old(self).same_as(final(self)),
                StreamEvent::Error(text) => step matches DiscoverStep::Finished(Err(message))
                    && message@ == text@ && old(self).same_as(final(self)),
            },
    {
        match event {
            StreamEvent::Stop => DiscoverStep::Finished(Ok(())),
            StreamEvent::Response(devices) => DiscoverStep::Continue(
                self.handle_discovery_results(
                    devices,
                    dh_details.register_request.is_local,
                    node_name,
                    now,
                ),
            ),
            StreamEvent::End => DiscoverStep::Finished(Err(UNEXPECTED_END.to_owned())),
            StreamEvent::Error(text) => DiscoverStep::Finished(Err(text)),
        }
    }
}

} // verus!
