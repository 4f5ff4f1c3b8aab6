//! The static inventory: guests, their disks and network interfaces, and the
//! networks their taps attach to. Loaded once at process start and immutable
//! for the life of the process.

use vstd::prelude::*;

use crate::connection::SshConnection;
use crate::errors::Error;

verus! {

/// The default CPU model handed to the hypervisor.
pub fn default_host() -> (r: String)
    ensures
        r@ == "host"@,
{
    "host".to_owned()
}

/// The default device model of a disk.
pub fn default_disk_model() -> (r: String)
    ensures
        r@ == "scsi-hd"@,
{
    "scsi-hd".to_owned()
}

/// The default device model of a network interface.
pub fn default_network_interface_model() -> (r: String)
    ensures
        r@ == "virtio-net-pci-non-transitional"@,
{
    "virtio-net-pci-non-transitional".to_owned()
}

/// One virtual disk image backing a guest: a reference to external mutable
/// state, never cached — only queried on demand.
#[derive(Debug)]
pub struct Disk {
    pub label: String,
    pub path: String,
    pub size: u64,
    pub model: String,
}

/// One network interface of a guest.
#[derive(Debug)]
pub struct NetworkInterface {
    pub network_id: String,
    pub mac_address: String,
    pub model: String,
    pub tap_name: String,
}

/// A network: the bridge interface a guest's tap devices attach to.
#[derive(Debug)]
pub struct Network {
    pub bridge_name: String,
}

/// A managed virtual machine definition.
#[derive(Debug)]
pub struct Guest {
    pub description: String,
    pub ip_address: Option<String>,
    pub memory: u64,
    pub cores: u64,
    pub spice_port: u64,
    pub host: String,
    pub monitor_socket_path: String,
    pub pidfile_path: String,
    pub network_interfaces: Vec<NetworkInterface>,
    pub disks: Vec<Disk>,
}

/// The value an ordered list of keyed entries associates with a key: the
/// first entry carrying it. The loader supplies entries with unique keys in
/// key order, so the first match is the only one.
pub open spec fn assoc_lookup<T>(entries: Seq<(String, T)>, id: Seq<char>) -> Option<T>
    decreases entries.len(),
{
    if entries.len() == 0 {
        None
    } else if entries[0].0@ == id {
        Some(entries[0].1)
    } else {
        assoc_lookup(entries.skip(1), id)
    }
}

fn lookup_entry<'a, T>(entries: &'a Vec<(String, T)>, id: &String) -> (r: Option<&'a T>)
    ensures
        match r {
            Some(t) => assoc_lookup(entries@, id@) == Some(*t),
            None => assoc_lookup(entries@, id@) is None,
        },
{
    let mut i: usize = 0;
    proof {
        assert(entries@.skip(0) =~= entries@);
    }
    while i < entries.len()
        invariant
            i <= entries@.len(),
            assoc_lookup(entries@, id@) == assoc_lookup(entries@.skip(i as int), id@),
        decreases entries@.len() - i,
    {
        proof {
            assert(entries@.skip(i as int)[0] == entries@[i as int]);
            assert(entries@.skip(i as int).skip(1) =~= entries@.skip(i as int + 1));
        }
        if entries[i].0 == *id {
            return Some(&entries[i].1);
        }
        i = i + 1;
    }
    proof {
        assert(entries@.skip(i as int).len() == 0);
    }
    None
}

/// The whole inventory plus the host every host-proxied command goes
/// through.
#[derive(Debug)]
pub struct App {
    pub host: String,
    pub guests: Vec<(String, Guest)>,
    pub networks: Vec<(String, Network)>,
}

impl App {
    /// The guest a lookup of `guest_id` finds.
    pub open spec fn guest_of(self, guest_id: Seq<char>) -> Option<Guest> {
        assoc_lookup(self.guests@, guest_id)
    }

    /// The network a lookup of `network_id` finds.
    pub open spec fn network_of(self, network_id: Seq<char>) -> Option<Network> {
        assoc_lookup(self.networks@, network_id)
    }

    /// Looks a guest up by id; an unknown id is an error.
    pub fn get_guest(&self, guest_id: &String) -> (r: Result<&Guest, Error>)
        ensures
            match r {
                Ok(g) => self.guest_of(guest_id@) == Some(*g),
                Err(e) => {
                    &&& self.guest_of(guest_id@) is None
                    &&& e matches Error::UnknownGuest { guest_id: g } && g@ == guest_id@
                },
            },
    {
        match lookup_entry(&self.guests, guest_id) {
            Some(guest) => Ok(guest),
            None => Err(Error::UnknownGuest { guest_id: guest_id.clone() }),
        }
    }

    /// Looks a network up by id; an unknown id is an error.
    pub fn get_network(&self, network_id: &String) -> (r: Result<&Network, Error>)
        ensures
            match r {
                Ok(n) => self.network_of(network_id@) == Some(*n),
                Err(e) => {
                    &&& self.network_of(network_id@) is None
                    &&& e matches Error::UnknownNetwork { network_id: n } && n@ == network_id@
                },
            },
    {
        match lookup_entry(&self.networks, network_id) {
            Some(network) => Ok(network),
            None => Err(Error::UnknownNetwork { network_id: network_id.clone() }),
        }
    }

    /// The disks of a guest, in declared order; an unknown id is an error.
    pub fn get_guest_disks(&self, guest_id: &String) -> (r: Result<&Vec<Disk>, Error>)
        ensures
            match r {
                Ok(disks) => self.guest_of(guest_id@) matches Some(g) && g.disks == *disks,
                Err(e) => {
                    &&& self.guest_of(guest_id@) is None
                    &&& e matches Error::UnknownGuest { guest_id: g } && g@ == guest_id@
                },
            },
    {
        let guest = self.get_guest(guest_id)?;
        Ok(&guest.disks)
    }

    /// A connection to a guest's address; a guest without a configured
    /// IP address cannot be a guest-direct target.
    pub fn get_guest_ssh_connection(&self, guest_id: &String) -> (r: Result<
        SshConnection,
        Error,
    >)
        ensures
            match r {
                Ok(c) => self.guest_of(guest_id@) matches Some(g) && g.ip_address matches Some(ip)
                    && c.destination@ == ip@,
                Err(e) => match e {
                    Error::UnknownGuest { guest_id: g } => {
                        &&& self.guest_of(guest_id@) is None
                        &&& g@ == guest_id@
                    },
                    Error::MissingIpAddressConfiguration { guest_id: g } => {
                        &&& self.guest_of(guest_id@) matches Some(gu) && gu.ip_address is None
                        &&& g@ == guest_id@
                    },
                    _ => false,
                },
            },
    {
        let guest = self.get_guest(guest_id)?;
        match &guest.ip_address {
            Some(ip) => Ok(SshConnection::new(ip.as_str())),
            None => Err(Error::MissingIpAddressConfiguration { guest_id: guest_id.clone() }),
        }
    }

    /// A connection to the configured host.
    pub fn get_host_ssh_connection(&self) -> (r: SshConnection)
        ensures
            r.destination@ == self.host@,
    {
        SshConnection::new(self.host.as_str())
    }
}

} // verus!
