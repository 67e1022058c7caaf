//! The remote-control layer: maps a decoded protocol command to a
//! logical button through a per-model table.

use vstd::prelude::*;
use crate::cmd::{NecCommand, Rc5Command, Rc6Command, SbpCommand};

verus! {

/// Standard remote functions, plus a sentinel for codes a model's table
/// does not cover.
#[derive(Clone, Copy, Debug, PartialEq, Eq, Structural)]
pub enum Button {
    Zero,
    One,
    Two,
    Three,
    Four,
    Five,
    Six,
    Seven,
    Eight,
    Nine,
    Power,
    Source,
    VolumeUp,
    VolumeDown,
    Mute,
    ChannelUp,
    ChannelDown,
    ChannelList,
    Up,
    Down,
    Left,
    Right,
    Enter,
    Back,
    Menu,
    Play,
    Pause,
    Stop,
    Rewind,
    Forward,
    Next,
    Prev,
    Red,
    Green,
    Yellow,
    Blue,
    Setup,
    Return,
    Unmapped,
}

/// What kind of appliance a remote belongs to.
#[derive(Clone, Copy, Debug, PartialEq, Eq, Structural)]
pub enum DeviceType {
    Tv,
    Dvd,
    Cd,
    BluRay,
    Generic,
}

/// The first button mapped to `code` in the table, if any.
pub open spec fn spec_lookup(table: Seq<(u8, Button)>, code: u8) -> Option<Button>
    decreases table.len(),
{
    if table.len() == 0 {
        None
    } else if table[0].0 == code {
        Some(table[0].1)
    } else {
        spec_lookup(table.drop_first(), code)
    }
}

/// A remote-control model: its declared protocol address and the table
/// mapping raw command codes to logical buttons.
pub struct RemoteControl {
    pub name: String,
    pub device: DeviceType,
    pub addr: u8,
    pub buttons: Vec<(u8, Button)>,
}

/// What a command code addressed to this remote means: the mapped button
/// if the table covers the code, and the unmapped sentinel otherwise.
pub open spec fn spec_mapped(table: Seq<(u8, Button)>, code: u8) -> Option<Button> {
    match spec_lookup(table, code) {
        Some(b) => Some(b),
        None => Some(Button::Unmapped),
    }
}

/// What a decoded NEC-family command means to this remote: nothing if it
/// is addressed elsewhere, the mapped button if the table covers its
/// code, and the unmapped sentinel otherwise.
pub open spec fn spec_button(r: RemoteControl, cmd: NecCommand) -> Option<Button> {
    if cmd.addr != r.addr {
        None
    } else {
        match spec_lookup(r.buttons@, cmd.cmd) {
            Some(b) => Some(b),
            None => Some(Button::Unmapped),
        }
    }
}

/// What a decoded RC-5 command means to this remote.
pub open spec fn spec_button_rc5(r: RemoteControl, cmd: Rc5Command) -> Option<Button> {
    if cmd.addr != r.addr {
        None
    } else {
        spec_mapped(r.buttons@, cmd.cmd)
    }
}

/// What a decoded RC-6 command means to this remote.
pub open spec fn spec_button_rc6(r: RemoteControl, cmd: Rc6Command) -> Option<Button> {
    if cmd.addr != r.addr {
        None
    } else {
        spec_mapped(r.buttons@, cmd.cmd)
    }
}

/// What a decoded SBP command means to this remote. The model's address
/// field is eight bits wide, so an SBP model is one whose 13-bit address
/// fits in it.
pub open spec fn spec_button_sbp(r: RemoteControl, cmd: SbpCommand) -> Option<Button> {
    if cmd.addr != r.addr as u16 {
        None
    } else {
        spec_mapped(r.buttons@, cmd.cmd)
    }
}

impl RemoteControl {
    /// Assemble a model from its address and button table.
    pub fn new(name: String, device: DeviceType, addr: u8, buttons: Vec<(u8, Button)>) -> (r:
        RemoteControl)
        ensures
            r.name == name,
            r.device == device,
            r.addr == addr,
            r.buttons == buttons,
    {
        RemoteControl { name, device, addr, buttons }
    }

    /// First match for `code` in the table; exactly `spec_lookup`.
    fn lookup(&self, code: u8) -> (r: Option<Button>)
        ensures
            r == spec_lookup(self.buttons@, code),
    {
        let mut i: usize = 0;
        proof {
            assert(self.buttons@.skip(0) =~= self.buttons@);
        }
        while i < self.buttons.len()
            invariant
                i <= self.buttons@.len(),
                spec_lookup(self.buttons@, code) == spec_lookup(
                    self.buttons@.skip(i as int),
                    code,
                ),
            decreases self.buttons@.len() - i,
        {
            let (c, b) = self.buttons[i];
            proof {
                assert(self.buttons@.skip(i as int)[0] == self.buttons@[i as int]);
                assert(self.buttons@.skip(i as int).drop_first() =~= self.buttons@.skip(
                    i as int + 1,
                ));
            }
            if c == code {
                return Some(b);
            }
            i = i + 1;
        }
        proof {
            assert(self.buttons@.skip(self.buttons@.len() as int).len() == 0);
        }
        None
    }

    /// The table's button for an addressed code, or the unmapped
    /// sentinel; exactly `spec_mapped`.
    fn mapped(&self, code: u8) -> (r: Option<Button>)
        ensures
            r == spec_mapped(self.buttons@, code),
    {
        match self.lookup(code) {
            Some(b) => Some(b),
            None => Some(Button::Unmapped),
        }
    }

    /// Translate a decoded NEC-family command; exactly `spec_button`.
    pub fn button(&self, cmd: &NecCommand) -> (r: Option<Button>)
        ensures
            r == spec_button(*self, *cmd),
    {
        if cmd.addr != self.addr {
            return None;
        }
        self.mapped(cmd.cmd)
    }

    /// Translate a decoded RC-5 command; exactly `spec_button_rc5`.
    pub fn button_rc5(&self, cmd: &Rc5Command) -> (r: Option<Button>)
        ensures
            r == spec_button_rc5(*self, *cmd),
    {
        if cmd.addr != self.addr {
            return None;
        }
        self.mapped(cmd.cmd)
    }

    /// Translate a decoded RC-6 command; exactly `spec_button_rc6`.
    pub fn button_rc6(&self, cmd: &Rc6Command) -> (r: Option<Button>)
        ensures
            r == spec_button_rc6(*self, *cmd),
    {
        if cmd.addr != self.addr {
            return None;
        }
        self.mapped(cmd.cmd)
    }

    /// Translate a decoded SBP command; exactly `spec_button_sbp`.
    pub fn button_sbp(&self, cmd: &SbpCommand) -> (r: Option<Button>)
        ensures
            r == spec_button_sbp(*self, *cmd),
    {
        if cmd.addr != self.addr as u16 {
            return None;
        }
        self.mapped(cmd.cmd)
    }
}

} // verus!
