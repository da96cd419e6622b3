//! The files the system setup installs: the systemd units, the udev rule and
//! the runtime permissions of the HID devices.

use vstd::prelude::*;
use crate::text;
use crate::hardware::SystemdServiceState;

verus! {

/// The unit of the service that configures the gadget at boot, running
/// `exe _internal_configure_gadget`.
pub open spec fn gadget_unit_text(exe: Seq<char>) -> Seq<char> {
    "[Unit]\nDescription=Splatoon3 Ghost Drawer USB Gadget Configuration\nAfter=sysinit.target\nBefore=basic.target\nDefaultDependencies=no\n\n[Service]\nType=oneshot\nRemainAfterExit=yes\nExecStart="@
        + exe
        + " _internal_configure_gadget\nExecStop=/bin/sh -c 'echo \"\" > /sys/kernel/config/usb_gadget/nintendo_controller/UDC || true'\nStandardOutput=journal\nStandardError=journal\nTimeoutStartSec=30s\n\n[Install]\nWantedBy=sysinit.target\n"@
}

/// The unit of the web interface, running `exe run` as the `splatoon3` user.
pub open spec fn web_unit_text(exe: Seq<char>) -> Seq<char> {
    "[Unit]\nDescription=Splatoon3 Ghost Drawer Web Service\nAfter=network-online.target splatoon3-gadget.service\nWants=network-online.target\nRequires=splatoon3-gadget.service\n\n[Service]\nType=simple\nExecStart="@
        + exe
        + " run\nRestart=on-failure\nRestartSec=10\nUser=splatoon3\nGroup=splatoon3\nEnvironment=\"RUST_LOG=info\"\nStandardOutput=journal\nStandardError=journal\nTimeoutStartSec=60s\n# Grant access to HID devices\nSupplementaryGroups=input\n\n[Install]\nWantedBy=multi-user.target\n"@
}

/// The unit file of the gadget service for the program at `exe`; see `gadget_unit_text`.
pub fn gadget_service_unit(exe: &str) -> (r: String)
    ensures
        r@ == gadget_unit_text(exe@),
{
    let mut s = text::owned("[Unit]\nDescription=Splatoon3 Ghost Drawer USB Gadget Configuration\nAfter=sysinit.target\nBefore=basic.target\nDefaultDependencies=no\n\n[Service]\nType=oneshot\nRemainAfterExit=yes\nExecStart=");
    text::push_str(&mut s, exe);
    text::push_str(&mut s, " _internal_configure_gadget\nExecStop=/bin/sh -c 'echo \"\" > /sys/kernel/config/usb_gadget/nintendo_controller/UDC || true'\nStandardOutput=journal\nStandardError=journal\nTimeoutStartSec=30s\n\n[Install]\nWantedBy=sysinit.target\n");
    s
}

/// The unit file of the web service for the program at `exe`; see `web_unit_text`.
pub fn web_service_unit(exe: &str) -> (r: String)
    ensures
        r@ == web_unit_text(exe@),
{
    let mut s = text::owned("[Unit]\nDescription=Splatoon3 Ghost Drawer Web Service\nAfter=network-online.target splatoon3-gadget.service\nWants=network-online.target\nRequires=splatoon3-gadget.service\n\n[Service]\nType=simple\nExecStart=");
    text::push_str(&mut s, exe);
    text::push_str(&mut s, " run\nRestart=on-failure\nRestartSec=10\nUser=splatoon3\nGroup=splatoon3\nEnvironment=\"RUST_LOG=info\"\nStandardOutput=journal\nStandardError=journal\nTimeoutStartSec=60s\n# Grant access to HID devices\nSupplementaryGroups=input\n\n[Install]\nWantedBy=multi-user.target\n");
    s
}

/// The udev rule that gives the `splatoon3` user the HID gadget devices.
pub fn hid_udev_rule() -> (r: &'static str)
    ensures
        r@ == "# Splatoon3 Ghost Drawer HID Device Permissions\n# Give splatoon3 user access to HID gadget devices\nSUBSYSTEM==\"hidg\", GROUP=\"splatoon3\", MODE=\"0664\"\nKERNEL==\"hidg*\", GROUP=\"splatoon3\", MODE=\"0664\"\n\n# Also ensure input group access\nSUBSYSTEM==\"input\", GROUP=\"input\", MODE=\"0664\"\nKERNEL==\"event*\", GROUP=\"input\", MODE=\"0664\"\n"@,
{
    "# Splatoon3 Ghost Drawer HID Device Permissions\n# Give splatoon3 user access to HID gadget devices\nSUBSYSTEM==\"hidg\", GROUP=\"splatoon3\", MODE=\"0664\"\nKERNEL==\"hidg*\", GROUP=\"splatoon3\", MODE=\"0664\"\n\n# Also ensure input group access\nSUBSYSTEM==\"input\", GROUP=\"input\", MODE=\"0664\"\nKERNEL==\"event*\", GROUP=\"input\", MODE=\"0664\"\n"
}

/// The systemd-tmpfiles rule for the runtime permissions of the HID devices.
pub fn hid_tmpfiles_rule() -> (r: &'static str)
    ensures
        r@ == "# Splatoon3 Ghost Drawer Runtime Permissions\nd /dev/hidg0 0664 root splatoon3 -\nd /dev/hidg1 0664 root splatoon3 -\nd /dev/hidg2 0664 root splatoon3 -\nd /dev/hidg3 0664 root splatoon3 -\n"@,
{
    "# Splatoon3 Ghost Drawer Runtime Permissions\nd /dev/hidg0 0664 root splatoon3 -\nd /dev/hidg1 0664 root splatoon3 -\nd /dev/hidg2 0664 root splatoon3 -\nd /dev/hidg3 0664 root splatoon3 -\n"
}

/// Whether `systemctl is-enabled` reported the unit enabled: its output,
/// trimmed, is `enabled`.
pub fn reports_enabled(output: &str) -> (r: bool)
    ensures
        r == (text::trim(output@) == "enabled"@),
{
    crate::boot_config::trims_to(output, "enabled")
}

/// The unit of the Pro Controller gadget service whose `ExecStart` is `exec_start`.
pub open spec fn pro_controller_unit_text(exec_start: Seq<char>) -> Seq<char> {
    "[Unit]\nDescription=Nintendo Switch Pro Controller USB Gadget\nAfter=network.target\n\n[Service]\nType=oneshot\nRemainAfterExit=yes\nExecStart="@
        + exec_start
        + "\nExecStop=/usr/local/bin/remove-nintendo-controller.sh\nStandardOutput=journal\nStandardError=journal\n\n[Install]\nWantedBy=multi-user.target\n"@
}

/// The unit file of the Pro Controller gadget service; see `pro_controller_unit_text`.
pub fn pro_controller_unit(exec_start: &str) -> (r: String)
    ensures
        r@ == pro_controller_unit_text(exec_start@),
{
    let mut s = text::owned("[Unit]\nDescription=Nintendo Switch Pro Controller USB Gadget\nAfter=network.target\n\n[Service]\nType=oneshot\nRemainAfterExit=yes\nExecStart=");
    text::push_str(&mut s, exec_start);
    text::push_str(&mut s, "\nExecStop=/usr/local/bin/remove-nintendo-controller.sh\nStandardOutput=journal\nStandardError=journal\n\n[Install]\nWantedBy=multi-user.target\n");
    s
}

/// The state of a unit from what systemd reports of it: running when
/// `is-active` succeeds, else enabled when `is-enabled` succeeds, else
/// installed when its unit file exists, else not installed.
pub fn observed_service_state(is_active: bool, is_enabled: bool, unit_file_exists: bool) -> (r: SystemdServiceState)
    ensures
        is_active ==> r == SystemdServiceState::Running,
        !is_active && is_enabled ==> r == SystemdServiceState::Enabled,
        !is_active && !is_enabled && unit_file_exists ==> r == SystemdServiceState::Installed,
        !is_active && !is_enabled && !unit_file_exists ==> r == SystemdServiceState::NotInstalled,
{
    if is_active {
        SystemdServiceState::Running
    } else if is_enabled {
        SystemdServiceState::Enabled
    } else if unit_file_exists {
        SystemdServiceState::Installed
    } else {
        SystemdServiceState::NotInstalled
    }
}

} // verus!
