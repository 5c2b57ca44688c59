//! The WiFi runner's decisions: commands from the application, the radio
//! mode they select, the AP SSID, and when an STA reconnect is scheduled.
//! The radio itself is driven by the caller.
use vstd::prelude::*;
use crate::strs::push_char;

verus! {

/// Maximum SSID length (IEEE 802.11 max is 32 bytes).
pub const MAX_SSID_LEN: usize = 32;
/// Maximum passphrase length (WPA2 max is 63 ASCII chars).
pub const MAX_PASS_LEN: usize = 64;
/// Maximum AP SSID prefix length. Full SSID = prefix + 12 hex chars (MAC).
pub const MAX_AP_SSID_PREFIX_LEN: usize = 20;
/// Sockets on the access-point stack: the portal's accepted connections, the
/// DHCP server and the captive DNS server, with headroom for clients that are
/// connected but not yet served.
pub const AP_SOCKET_COUNT: usize = 8;
/// Sockets on the station stack: the DHCP client and what the application opens.
pub const STA_SOCKET_COUNT: usize = 4;
/// Delay before retrying STA connect after failure or disconnect (ms).
pub const STA_RECONNECT_DELAY_MS: u64 = 5000;
/// Maximum number of buffered commands.
pub const WIFI_COMMAND_CHANNEL_CAPACITY: usize = 2;
/// AP subnet prefix length (default /24 = 255.255.255.0).
pub const AP_SUBNET_PREFIX: u8 = 24;

/// `heapless::String<N>`, the fixed-capacity string carried by commands; its
/// text is read through `as_str`.
#[verifier::external_type_specification]
#[verifier::external_body]
pub struct ExHeaplessString<const N: usize>(heapless::String<N>);

/// The text held by an AP SSID prefix.
pub uninterp spec fn prefix_text(s: heapless::String<20>) -> Seq<char>;

/// The text held by an SSID.
pub uninterp spec fn ssid_text(s: heapless::String<32>) -> Seq<char>;

/// The text held by a passphrase.
pub uninterp spec fn pass_text(s: heapless::String<64>) -> Seq<char>;

/// `heapless::String::as_str` on an AP SSID prefix: the text it holds.
#[verifier::external_body]
fn prefix_str(s: &heapless::String<20>) -> (r: &str)
    ensures
        r@ == prefix_text(*s),
{
    s.as_str()
}

/// `heapless::String::as_str` on an SSID: the text it holds.
#[verifier::external_body]
fn ssid_str(s: &heapless::String<32>) -> (r: &str)
    ensures
        r@ == ssid_text(*s),
{
    s.as_str()
}

/// `heapless::String::as_str` on a passphrase: the text it holds.
#[verifier::external_body]
fn pass_str(s: &heapless::String<64>) -> (r: &str)
    ensures
        r@ == pass_text(*s),
{
    s.as_str()
}

/// What `<str as Debug>::fmt` writes for a text (heapless strings format
/// through it).
pub uninterp spec fn str_debug_text(s: Seq<char>) -> Seq<char>;

/// Whether `c` is printable ASCII other than `"` and `\`: `Debug` writes such
/// characters as they are.
pub open spec fn debug_plain_char(c: char) -> bool {
    ' ' <= c && c <= '~' && c != '"' && c != '\\'
}

/// `format!("{:?}", s)`: the `Debug` form of a text, which is its
/// `str_debug_text`. For a text of printable ASCII characters other than `"`
/// and `\` that form is the text in double quotes, as `str`'s `Debug` writes
/// those characters unescaped; the escapes it writes for other characters are
/// not restated.
#[verifier::external_body]
fn debug_quoted(s: &str) -> (r: String)
    ensures
        r@ == str_debug_text(s@),
        (forall|i: int| 0 <= i < s@.len() ==> debug_plain_char(#[trigger] s@[i])) ==> r@ == seq!['"'] + s@ + seq![
            '"',
        ],
{
    format!("{:?}", s)
}

/// Command to control WiFi caddy (all configuration is via commands).
pub enum WifiCaddyCommand {
    /// Enable AP mode with given SSID prefix (full SSID = prefix + MAC).
    APUp(heapless::String<20>),
    /// Disable AP (STA-only or none).
    APDown,
    /// Set STA credentials (ssid, pass) and enable STA.
    StaUp(heapless::String<32>, heapless::String<64>),
}

/// One `*` per character: how a passphrase is shown in logs.
pub open spec fn redact_spec(s: Seq<char>) -> Seq<char> {
    Seq::new(s.len(), |i: int| '*')
}

/// The passphrase masked for logging.
pub fn redact(s: &str) -> (r: String)
    ensures
        r@ == redact_spec(s@),
{
    let n = s.unicode_len();
    let mut out = String::new();
    let mut i: usize = 0;
    while i < n
        invariant
            n == s@.len(),
            i <= n,
            out@ == redact_spec(s@.take(i as int)),
        decreases n - i,
    {
        push_char(&mut out, '*');
        proof {
            assert(out@ =~= redact_spec(s@.take(i + 1)));
        }
        i = i + 1;
    }
    proof {
        assert(s@.take(n as int) =~= s@);
    }
    out
}

impl WifiCaddyCommand {
    /// The command for logs, with the passphrase masked: `APUp(prefix)`,
    /// `APDown`, `StaUp(ssid, ***)` (the texts unquoted).
    pub fn describe(&self) -> (r: String)
        ensures
            r@ == match *self {
                WifiCaddyCommand::APUp(p) => "APUp("@ + prefix_text(p) + ")"@,
                WifiCaddyCommand::APDown => "APDown"@,
                WifiCaddyCommand::StaUp(s, p) => "StaUp("@ + ssid_text(s) + ", "@ + redact_spec(pass_text(p)) + ")"@,
            },
    {
        match self {
            WifiCaddyCommand::APUp(p) => {
                let mut out = "APUp(".to_owned();
                out.append(prefix_str(p));
                out.append(")");
                out
            },
            WifiCaddyCommand::APDown => "APDown".to_owned(),
            WifiCaddyCommand::StaUp(s, p) => {
                let masked = redact(pass_str(p));
                let mut out = "StaUp(".to_owned();
                out.append(ssid_str(s));
                out.append(", ");
                out.append(masked.as_str());
                out.append(")");
                out
            },
        }
    }
}

impl WifiCaddyCommand {
    /// The command's `Debug` form, with the passphrase masked:
    /// `APUp("prefix")`, `APDown`, `StaUp("ssid", ***)` (the prefix and SSID
    /// quoted and escaped as `Debug` writes text, one `*` per passphrase
    /// character).
    pub fn debug_text(&self) -> (r: String)
        ensures
            r@ == match *self {
                WifiCaddyCommand::APUp(p) => "APUp("@ + str_debug_text(prefix_text(p)) + ")"@,
                WifiCaddyCommand::APDown => "APDown"@,
                WifiCaddyCommand::StaUp(s, p) => "StaUp("@ + str_debug_text(ssid_text(s)) + ", "@ + redact_spec(
                    pass_text(p),
                ) + ")"@,
            },
    {
        match self {
            WifiCaddyCommand::APUp(p) => {
                let quoted = debug_quoted(prefix_str(p));
                let mut out = "APUp(".to_owned();
                out.append(quoted.as_str());
                out.append(")");
                out
            },
            WifiCaddyCommand::APDown => "APDown".to_owned(),
            WifiCaddyCommand::StaUp(s, p) => {
                let quoted = debug_quoted(ssid_str(s));
                let masked = redact(pass_str(p));
                let mut out = "StaUp(".to_owned();
                out.append(quoted.as_str());
                out.append(", ");
                out.append(masked.as_str());
                out.append(")");
                out
            },
        }
    }
}

/// Lower-case hex digit of a value below 16.
pub open spec fn hex_digit(n: int) -> char {
    seq!['0', '1', '2', '3', '4', '5', '6', '7', '8', '9', 'a', 'b', 'c', 'd', 'e', 'f'][n]
}

/// A byte as two lower-case hex digits.
pub open spec fn hex2(b: u8) -> Seq<char> {
    seq![hex_digit((b / 16) as int), hex_digit((b % 16) as int)]
}

/// The MAC address as twelve lower-case hex digits.
pub open spec fn mac_hex(mac: [u8; 6]) -> Seq<char> {
    hex2(mac[0]) + hex2(mac[1]) + hex2(mac[2]) + hex2(mac[3]) + hex2(mac[4]) + hex2(mac[5])
}

fn hex_char(n: u8) -> (r: char)
    requires
        n < 16,
    ensures
        r == hex_digit(n as int),
{
    let digits: [char; 16] = ['0', '1', '2', '3', '4', '5', '6', '7', '8', '9', 'a', 'b', 'c', 'd', 'e', 'f'];
    proof {
        assert(digits@ =~= seq!['0', '1', '2', '3', '4', '5', '6', '7', '8', '9', 'a', 'b', 'c', 'd', 'e', 'f']);
    }
    digits[n as usize]
}

fn push_hex2(out: &mut String, b: u8)
    ensures
        final(out)@ == old(out)@ + hex2(b),
{
    push_char(out, hex_char(b / 16));
    push_char(out, hex_char(b % 16));
    proof {
        assert(final(out)@ =~= old(out)@ + hex2(b));
    }
}

/// Settings of a station (client) connection.
pub struct ClientSettings {
    /// Network to join.
    pub ssid: String,
    /// Its passphrase.
    pub password: String,
}

/// Settings of the access point.
pub struct ApSettings {
    /// Broadcast SSID.
    pub ssid: String,
    /// Passphrase; the AP is open (empty).
    pub password: String,
}

/// The radio mode the runner's state selects.
pub enum ModeChoice {
    /// Radio idle: no AP and no SSID.
    Off,
    /// Station only.
    Client(ClientSettings),
    /// Access point only.
    AccessPoint(ApSettings),
    /// Station and access point.
    ApSta(ClientSettings, ApSettings),
}

/// WiFi events the runner reacts to.
#[derive(Clone, Copy, PartialEq, Eq, Structural, Debug)]
pub enum WifiEventKind {
    /// The station connected.
    StaConnected,
    /// The station disconnected.
    StaDisconnected,
    /// Any other event (ignored).
    Other,
}

/// What a step does to the STA reconnect deadline.
#[derive(Clone, Copy, PartialEq, Eq, Structural, Debug)]
pub enum ScheduleChange {
    /// The deadline stays as it is (set or not).
    Keep,
    /// The deadline is set afresh to `STA_RECONNECT_DELAY_MS` from now,
    /// replacing any deadline already set.
    Arm,
    /// No deadline.
    Cancel,
}

/// Whether a deadline is set after `c`, given whether one was set before.
pub open spec fn pending_after(pending: bool, c: ScheduleChange) -> bool {
    match c {
        ScheduleChange::Keep => pending,
        ScheduleChange::Arm => true,
        ScheduleChange::Cancel => false,
    }
}

/// State of the WiFi runner.
pub struct WifiState {
    /// Whether the AP is requested.
    pub ap_up: bool,
    /// AP SSID prefix.
    pub ap_ssid_prefix: String,
    /// MAC of the AP interface.
    pub ap_mac: [u8; 6],
    /// STA SSID; empty when no network is configured.
    pub ssid: String,
    /// STA passphrase.
    pub pass: String,
    /// Whether an STA reconnect deadline is set (`STA_RECONNECT_DELAY_MS` after
    /// the step that last armed it).
    pub reconnect_pending: bool,
}

/// The client settings of the state.
pub open spec fn client_matches(c: ClientSettings, st: WifiState) -> bool {
    c.ssid@ == st.ssid@ && c.password@ == st.pass@
}

/// The AP settings of the state: its SSID, open.
pub open spec fn ap_matches(a: ApSettings, st: WifiState) -> bool {
    a.ssid@ == st.ap_ssid_prefix@ + mac_hex(st.ap_mac) && a.password@ == Seq::<char>::empty()
}

impl WifiState {
    /// Idle: no AP, no SSID, nothing scheduled.
    pub fn new(ap_mac: [u8; 6]) -> (r: Self)
        ensures
            !r.ap_up,
            r.ap_ssid_prefix@ == Seq::<char>::empty(),
            r.ap_mac == ap_mac,
            r.ssid@ == Seq::<char>::empty(),
            r.pass@ == Seq::<char>::empty(),
            !r.reconnect_pending,
    {
        WifiState {
            ap_up: false,
            ap_ssid_prefix: String::new(),
            ap_mac,
            ssid: String::new(),
            pass: String::new(),
            reconnect_pending: false,
        }
    }

    /// The AP SSID: the prefix followed by the MAC in lower-case hex.
    pub fn ap_ssid(&self) -> (r: String)
        ensures
            r@ == self.ap_ssid_prefix@ + mac_hex(self.ap_mac),
    {
        let mut out = self.ap_ssid_prefix.clone();
        push_hex2(&mut out, self.ap_mac[0]);
        push_hex2(&mut out, self.ap_mac[1]);
        push_hex2(&mut out, self.ap_mac[2]);
        push_hex2(&mut out, self.ap_mac[3]);
        push_hex2(&mut out, self.ap_mac[4]);
        push_hex2(&mut out, self.ap_mac[5]);
        proof {
            assert(out@ =~= self.ap_ssid_prefix@ + mac_hex(self.ap_mac));
        }
        out
    }

    fn client(&self) -> (r: ClientSettings)
        ensures
            client_matches(r, *self),
    {
        ClientSettings { ssid: self.ssid.clone(), password: self.pass.clone() }
    }

    fn access_point(&self) -> (r: ApSettings)
        ensures
            ap_matches(r, *self),
    {
        ApSettings { ssid: self.ap_ssid(), password: String::new() }
    }

    /// The radio mode: off without AP and SSID; station when an SSID is set;
    /// access point when the AP is up; both when both.
    pub fn current_config(&self) -> (r: ModeChoice)
        ensures
            match r {
                ModeChoice::Off => !self.ap_up && self.ssid@.len() == 0,
                ModeChoice::Client(c) => !self.ap_up && self.ssid@.len() > 0 && client_matches(c, *self),
                ModeChoice::AccessPoint(a) => self.ap_up && self.ssid@.len() == 0 && ap_matches(a, *self),
                ModeChoice::ApSta(c, a) => self.ap_up && self.ssid@.len() > 0 && client_matches(c, *self)
                    && ap_matches(a, *self),
            },
    {
        let no_ssid = self.ssid.as_str().unicode_len() == 0;
        if !self.ap_up && no_ssid {
            ModeChoice::Off
        } else if !self.ap_up {
            ModeChoice::Client(self.client())
        } else if no_ssid {
            ModeChoice::AccessPoint(self.access_point())
        } else {
            ModeChoice::ApSta(self.client(), self.access_point())
        }
    }

    /// Applies a command: `APUp` sets the prefix and raises the AP, `APDown`
    /// lowers it, `StaUp` sets the credentials and cancels the reconnect
    /// deadline; the AP commands keep it.
    pub fn handle_command(&mut self, cmd: WifiCaddyCommand) -> (r: ScheduleChange)
        ensures
            final(self).ap_mac == old(self).ap_mac,
            r == (if cmd is StaUp {
                ScheduleChange::Cancel
            } else {
                ScheduleChange::Keep
            }),
            final(self).reconnect_pending == pending_after(old(self).reconnect_pending, r),
            match cmd {
                WifiCaddyCommand::APUp(p) => final(self).ap_up && final(self).ap_ssid_prefix@ == prefix_text(p)
                    && final(self).ssid@ == old(self).ssid@ && final(self).pass@ == old(self).pass@,
                WifiCaddyCommand::APDown => !final(self).ap_up && final(self).ap_ssid_prefix@ == old(
                    self,
                ).ap_ssid_prefix@ && final(self).ssid@ == old(self).ssid@ && final(self).pass@ == old(
                    self,
                ).pass@,
                WifiCaddyCommand::StaUp(s, p) => final(self).ap_up == old(self).ap_up
                    && final(self).ap_ssid_prefix@ == old(self).ap_ssid_prefix@ && final(self).ssid@
                    == ssid_text(s) && final(self).pass@ == pass_text(p),
            },
    {
        match cmd {
            WifiCaddyCommand::APUp(prefix) => {
                self.ap_ssid_prefix = prefix_str(&prefix).to_owned();
                self.ap_up = true;
                ScheduleChange::Keep
            },
            WifiCaddyCommand::APDown => {
                self.ap_up = false;
                ScheduleChange::Keep
            },
            WifiCaddyCommand::StaUp(new_ssid, new_pass) => {
                self.ssid = ssid_str(&new_ssid).to_owned();
                self.pass = pass_str(&new_pass).to_owned();
                self.reconnect_pending = false;
                ScheduleChange::Cancel
            },
        }
    }

    /// Reacts to a WiFi event: a connect cancels the reconnect deadline, every
    /// disconnect arms it afresh (replacing a deadline already set); other
    /// events change nothing.
    pub fn handle_wifi_event(&mut self, ev: WifiEventKind) -> (r: ScheduleChange)
        ensures
            final(self).ap_up == old(self).ap_up,
            final(self).ap_ssid_prefix@ == old(self).ap_ssid_prefix@,
            final(self).ap_mac == old(self).ap_mac,
            final(self).ssid@ == old(self).ssid@,
            final(self).pass@ == old(self).pass@,
            r == match ev {
                WifiEventKind::StaConnected => ScheduleChange::Cancel,
                WifiEventKind::StaDisconnected => ScheduleChange::Arm,
                WifiEventKind::Other => ScheduleChange::Keep,
            },
            final(self).reconnect_pending == pending_after(old(self).reconnect_pending, r),
    {
        match ev {
            WifiEventKind::StaConnected => {
                self.reconnect_pending = false;
                ScheduleChange::Cancel
            },
            WifiEventKind::StaDisconnected => {
                self.reconnect_pending = true;
                ScheduleChange::Arm
            },
            WifiEventKind::Other => ScheduleChange::Keep,
        }
    }

    /// Whether an STA connect attempt is made: an SSID is set and the station
    /// is not already connected.
    pub fn needs_connect(&self, sta_connected: bool) -> (r: bool)
        ensures
            r == (self.ssid@.len() > 0 && !sta_connected),
    {
        self.ssid.as_str().unicode_len() > 0 && !sta_connected
    }

    /// After a connect attempt (or the radio start) failed or succeeded:
    /// every failure arms the reconnect deadline afresh, a success leaves the
    /// schedule as it is.
    pub fn after_attempt(&mut self, ok: bool) -> (r: ScheduleChange)
        ensures
            final(self).ap_up == old(self).ap_up,
            final(self).ap_ssid_prefix@ == old(self).ap_ssid_prefix@,
            final(self).ap_mac == old(self).ap_mac,
            final(self).ssid@ == old(self).ssid@,
            final(self).pass@ == old(self).pass@,
            r == (if ok {
                ScheduleChange::Keep
            } else {
                ScheduleChange::Arm
            }),
            final(self).reconnect_pending == pending_after(old(self).reconnect_pending, r),
    {
        if !ok {
            self.reconnect_pending = true;
            ScheduleChange::Arm
        } else {
            ScheduleChange::Keep
        }
    }

    /// After the radio was configured for `action` (`ok` when setting the
    /// configuration succeeded): a radio that failed to start arms the
    /// reconnect deadline afresh and no connect attempt follows; a failed
    /// update of a running radio is only reported and changes nothing.
    pub fn after_radio(&mut self, action: RadioAction, ok: bool) -> (r: ScheduleChange)
        ensures
            final(self).ap_up == old(self).ap_up,
            final(self).ap_ssid_prefix@ == old(self).ap_ssid_prefix@,
            final(self).ap_mac == old(self).ap_mac,
            final(self).ssid@ == old(self).ssid@,
            final(self).pass@ == old(self).pass@,
            r == (if action == RadioAction::ApplyAndStart && !ok {
                ScheduleChange::Arm
            } else {
                ScheduleChange::Keep
            }),
            final(self).reconnect_pending == pending_after(old(self).reconnect_pending, r),
    {
        match action {
            RadioAction::ApplyAndStart => self.after_attempt(ok),
            _ => ScheduleChange::Keep,
        }
    }

    /// The reconnect deadline passed: it is cleared before the attempt.
    pub fn reconnect_due(&mut self) -> (r: ScheduleChange)
        ensures
            final(self).ap_up == old(self).ap_up,
            final(self).ap_ssid_prefix@ == old(self).ap_ssid_prefix@,
            final(self).ap_mac == old(self).ap_mac,
            final(self).ssid@ == old(self).ssid@,
            final(self).pass@ == old(self).pass@,
            r == ScheduleChange::Cancel,
            !final(self).reconnect_pending,
    {
        self.reconnect_pending = false;
        ScheduleChange::Cancel
    }
}

/// What the runner does with the radio for a mode.
#[derive(Clone, Copy, PartialEq, Eq, Structural, Debug)]
pub enum RadioAction {
    /// Nothing: the mode is off.
    Nothing,
    /// Set the configuration, then start the radio.
    ApplyAndStart,
    /// Set the new configuration on the running radio.
    Apply,
}

/// The radio is left alone when the mode is off; otherwise it is configured,
/// and started first when it is not running.
pub fn radio_action(mode: &ModeChoice, started: bool) -> (r: RadioAction)
    ensures
        r == if mode is Off {
            RadioAction::Nothing
        } else if !started {
            RadioAction::ApplyAndStart
        } else {
            RadioAction::Apply
        },
{
    match mode {
        ModeChoice::Off => RadioAction::Nothing,
        _ => if !started {
            RadioAction::ApplyAndStart
        } else {
            RadioAction::Apply
        },
    }
}

} // verus!
