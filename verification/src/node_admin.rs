//! Administering a node: its identity, installing packages, and what it reports of itself.
use vstd::prelude::*;

use crate::panel::{PanelError, PanelErrorView};
use crate::text::{concat2, decode_utf8_lossy, owned, utf8_lossy, views};

verus! {

/// The administrator of one node.
#[derive(Debug)]
pub struct NodeAdmin {
    pub node_id: String,
}

impl NodeAdmin {
    /// The administrator of node `node_id`.
    pub fn new(node_id: &str) -> (n: NodeAdmin)
        ensures
            n.node_id@ == node_id@,
    {
        NodeAdmin { node_id: owned(node_id) }
    }

    /// Brings up the node's administration.
    pub fn initialize(&self) -> (r: Result<(), PanelError>)
        ensures
            r is Ok,
    {
        Ok(())
    }

    /// Shuts down the node's administration.
    pub fn shutdown(&self) -> (r: Result<(), PanelError>)
        ensures
            r is Ok,
    {
        Ok(())
    }
}

/// The package managers a node may have.
#[derive(Clone, Copy, Debug, PartialEq, Eq, Structural)]
pub enum PackageManager {
    /// Debian and Ubuntu.
    Apt,
    /// RHEL and CentOS.
    Yum,
    /// Arch Linux.
    Pacman,
    /// Fedora.
    Dnf,
    /// macOS.
    Brew,
}

/// Installs packages with the node's package manager.
#[derive(Debug)]
pub struct DepsInstaller;

/// The commands that install `package` with a package manager, in order.
pub open spec fn install_commands(manager: PackageManager, package: Seq<char>) -> Seq<Seq<Seq<char>>> {
    match manager {
        PackageManager::Apt => seq![
            seq!["sudo"@, "apt"@, "update"@],
            seq!["sudo"@, "apt"@, "install"@, "-y"@, package],
        ],
        PackageManager::Yum => seq![seq!["sudo"@, "yum"@, "install"@, "-y"@, package]],
        PackageManager::Pacman => seq![seq!["sudo"@, "pacman"@, "-S"@, "--noconfirm"@, package]],
        PackageManager::Dnf => seq![seq!["sudo"@, "dnf"@, "install"@, "-y"@, package]],
        PackageManager::Brew => seq![seq!["brew"@, "install"@, package]],
    }
}

/// The views of a list of command lines.
pub open spec fn command_views(v: Seq<Vec<String>>) -> Seq<Seq<Seq<char>>> {
    v.map_values(|c: Vec<String>| views(c@))
}

/// The refusal after a failed command: updating the package lists, or installing.
pub open spec fn install_failure(updating: bool, stderr: Seq<u8>) -> PanelErrorView {
    if updating {
        PanelErrorView::Service("Failed to update apt: "@ + utf8_lossy(stderr))
    } else {
        PanelErrorView::Service("Failed to install package: "@ + utf8_lossy(stderr))
    }
}

impl DepsInstaller {
    /// The node's package manager: Apt is assumed.
    pub fn detect_package_manager() -> (r: Result<PackageManager, PanelError>)
        ensures
            r matches Ok(m) && m == PackageManager::Apt,
    {
        Ok(PackageManager::Apt)
    }

    /// The detected package manager and the commands that install `package` with it, in the
    /// order they run; each must succeed before the next.
    pub fn install_package(&self, package: &str) -> (r: Result<(PackageManager, Vec<Vec<String>>), PanelError>)
        ensures
            r matches Ok((m, cmds)) && m == PackageManager::Apt
                && command_views(cmds@) == install_commands(PackageManager::Apt, package@),
    {
        let manager = match Self::detect_package_manager() {
            Ok(m) => m,
            Err(e) => return Err(e),
        };
        Ok((manager, Self::commands_for(manager, package)))
    }

    /// The error after the command at `index` failed with `stderr`: with Apt the first
    /// command updates the package lists; every other one installs.
    pub fn step_failure(manager: PackageManager, index: usize, stderr: &[u8]) -> (e: PanelError)
        ensures
            e@ == install_failure(manager == PackageManager::Apt && index == 0, stderr@),
    {
        let updating = match manager {
            PackageManager::Apt => index == 0,
            _ => false,
        };
        Self::failure(updating, stderr)
    }

    /// The commands that install `package` with `manager`, in order.
    pub fn commands_for(manager: PackageManager, package: &str) -> (r: Vec<Vec<String>>)
        ensures
            command_views(r@) == install_commands(manager, package@),
    {
        let r = match manager {
            PackageManager::Apt => vec![
                vec![owned("sudo"), owned("apt"), owned("update")],
                vec![owned("sudo"), owned("apt"), owned("install"), owned("-y"), owned(package)],
            ],
            PackageManager::Yum => vec![vec![owned("sudo"), owned("yum"), owned("install"), owned("-y"), owned(package)]],
            PackageManager::Pacman => vec![vec![owned("sudo"), owned("pacman"), owned("-S"), owned("--noconfirm"), owned(package)]],
            PackageManager::Dnf => vec![vec![owned("sudo"), owned("dnf"), owned("install"), owned("-y"), owned(package)]],
            PackageManager::Brew => vec![vec![owned("brew"), owned("install"), owned(package)]],
        };
        proof {
            assert forall|i: int| 0 <= i < r@.len() implies #[trigger] command_views(r@)[i] =~= install_commands(manager, package@)[i] by {}
        }
        assert(command_views(r@) =~= install_commands(manager, package@));
        r
    }

    /// The error after a command failed with `stderr`: updating the package lists when
    /// `updating`, else installing.
    pub fn failure(updating: bool, stderr: &[u8]) -> (e: PanelError)
        ensures
            e@ == install_failure(updating, stderr@),
    {
        let text = decode_utf8_lossy(stderr);
        if updating {
            PanelError::Service(concat2("Failed to update apt: ", text.as_str()))
        } else {
            PanelError::Service(concat2("Failed to install package: ", text.as_str()))
        }
    }
}

/// Memory figures, in bytes.
#[derive(Debug, Clone, Copy)]
pub struct MemoryStats {
    pub total: u64,
    pub used: u64,
    pub free: u64,
}

/// Disk figures, in bytes.
#[derive(Debug, Clone, Copy)]
pub struct DiskStats {
    pub total: u64,
    pub used: u64,
    pub available: u64,
}

/// How a node is doing.
#[derive(Clone, Copy, Debug, PartialEq, Eq, Structural)]
pub enum NodeHealth {
    Healthy,
    Warning,
    Critical,
}

/// A file or directory as listed.
#[derive(Debug)]
pub struct FileInfo {
    pub path: String,
    pub is_dir: bool,
    pub size: u64,
    /// Seconds since the Unix epoch.
    pub modified: u64,
}

impl MemoryStats {
    /// The figures reported while collecting them is not implemented: all zero.
    pub fn unknown() -> (m: MemoryStats)
        ensures
            m.total == 0 && m.used == 0 && m.free == 0,
    {
        MemoryStats { total: 0, used: 0, free: 0 }
    }
}

impl DiskStats {
    /// The figures reported while collecting them is not implemented: all zero.
    pub fn unknown() -> (d: DiskStats)
        ensures
            d.total == 0 && d.used == 0 && d.available == 0,
    {
        DiskStats { total: 0, used: 0, available: 0 }
    }
}

}
