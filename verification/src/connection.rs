//! The state of the connection screen and of the password screen.
use vstd::prelude::*;
use crate::event_bus::EventBus;
use crate::state::AppEvent;

verus! {

/// Whether the client is connected, is connecting, and asked to use the
/// server without a Discord login.
pub struct Connection {
    pub connected: bool,
    pub connecting: bool,
    pub no_login: bool,
}

impl Default for Connection {
    fn default() -> (r: Connection)
        ensures
            !r.connected && !r.connecting && !r.no_login,
    {
        Connection { connected: false, connecting: false, no_login: false }
    }
}

impl Connection {
    pub fn connected(&self) -> (r: bool)
        ensures
            r == self.connected,
    {
        self.connected
    }

    pub fn is_connecting(&self) -> (r: bool)
        ensures
            r == self.connecting,
    {
        self.connecting
    }

    pub fn no_login(&self) -> (r: bool)
        ensures
            r == self.no_login,
    {
        self.no_login
    }

    pub fn set_connected(&mut self)
        ensures
            *final(self) == (Connection { connected: true, ..*old(self) }),
    {
        self.connected = true;
    }

    /// The connection failed or ended: neither connected nor connecting.
    pub fn failed_connection(&mut self)
        ensures
            *final(self) == (Connection { connected: false, connecting: false, ..*old(self) }),
    {
        self.connected = false;
        self.connecting = false;
    }

    /// The start button was pressed: asks for the websocket and starts connecting.
    pub fn start_pressed(&mut self, event_bus: &mut EventBus)
        ensures
            *final(self) == (Connection { connecting: true, ..*old(self) }),
            final(event_bus)@ == old(event_bus)@.push(AppEvent::StartWebsocket),
    {
        event_bus.publish(AppEvent::StartWebsocket);
        self.connecting = true;
    }
}

/// The password screen: the password, whether it was accepted, whether a check
/// is running, and the password being typed.
pub struct PasswordStatus {
    pub pass: String,
    pub show_pass: bool,
    pub pass_authenticated: bool,
    pub authenticating: bool,
    pub temp_pass: String,
}

impl Default for PasswordStatus {
    fn default() -> (r: PasswordStatus)
        ensures
            r.pass@.len() == 0,
            !r.show_pass && !r.pass_authenticated && !r.authenticating,
            r.temp_pass@.len() == 0,
    {
        PasswordStatus {
            pass: String::new(),
            show_pass: false,
            pass_authenticated: false,
            authenticating: false,
            temp_pass: String::new(),
        }
    }
}

impl PasswordStatus {
    pub fn pass_authenticated(&self) -> (r: bool)
        ensures
            r == self.pass_authenticated,
    {
        self.pass_authenticated
    }

    pub fn is_authenticating(&self) -> (r: bool)
        ensures
            r == self.authenticating,
    {
        self.authenticating
    }

    pub fn set_authenticated(&mut self)
        ensures
            final(self).pass_authenticated,
            final(self).pass@ == old(self).pass@,
            final(self).temp_pass@ == old(self).temp_pass@,
            final(self).show_pass == old(self).show_pass,
            final(self).authenticating == old(self).authenticating,
    {
        self.pass_authenticated = true;
    }

    /// The check failed: not accepted, not checking, typed password cleared.
    pub fn failed_connection(&mut self)
        ensures
            !final(self).pass_authenticated,
            !final(self).authenticating,
            final(self).temp_pass@.len() == 0,
            final(self).pass@ == old(self).pass@,
            final(self).show_pass == old(self).show_pass,
    {
        self.pass_authenticated = false;
        self.authenticating = false;
        self.temp_pass = String::new();
    }

    /// Forgets both the password and the typed password.
    pub fn clear_pass(&mut self)
        ensures
            final(self).temp_pass@.len() == 0,
            final(self).pass@.len() == 0,
            final(self).pass_authenticated == old(self).pass_authenticated,
            final(self).authenticating == old(self).authenticating,
            final(self).show_pass == old(self).show_pass,
    {
        self.temp_pass = String::new();
        self.pass = String::new();
    }

    pub fn set_temp_pass(&mut self, pass: String)
        ensures
            final(self).temp_pass@ == pass@,
            final(self).pass@ == old(self).pass@,
            final(self).pass_authenticated == old(self).pass_authenticated,
            final(self).authenticating == old(self).authenticating,
            final(self).show_pass == old(self).show_pass,
    {
        self.temp_pass = pass;
    }

    pub fn temp_pass(&self) -> (r: String)
        ensures
            r@ == self.temp_pass@,
    {
        self.temp_pass.clone()
    }
}

} // verus!
