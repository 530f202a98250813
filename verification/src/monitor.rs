//! Choosing how the host gets a virtual monitor, and the Hyprland commands that
//! create and remove one.
use crate::text::{contains_text, decimal, decimal_string};
use vstd::prelude::*;
use vstd::std_specs::iter::IteratorSpec;

verus! {

/// Which compositor the host asks for a virtual monitor.
#[derive(Debug, Clone, Copy, PartialEq, Eq, Structural)]
pub enum CompositorBackend {
    /// Detect the compositor of the running session.
    Auto,
    Hyprland,
    Mutter,
    /// Create no monitor; capture the active PipeWire stream.
    Headless,
}

impl Default for CompositorBackend {
    fn default() -> (b: Self)
        ensures
            b == CompositorBackend::Auto,
    {
        CompositorBackend::Auto
    }
}

/// A backend the host can try to bring up.
#[derive(Debug, Clone, Copy, PartialEq, Eq, Structural)]
pub enum BackendKind {
    Hyprland,
    Mutter,
    Headless,
}

/// The backends to try, in order: the first that comes up is used, and when the
/// last fails its error is the host's. A named compositor is tried alone. Auto
/// detection tries Hyprland in a Hyprland session and otherwise GNOME Mutter
/// and then Hyprland; either way it falls back to headless capture, which
/// always comes up.
pub open spec fn backend_order(choice: CompositorBackend, hyprland_session: bool) -> Seq<
    BackendKind,
> {
    match choice {
        CompositorBackend::Hyprland => seq![BackendKind::Hyprland],
        CompositorBackend::Mutter => seq![BackendKind::Mutter],
        CompositorBackend::Headless => seq![BackendKind::Headless],
        CompositorBackend::Auto => if hyprland_session {
            seq![BackendKind::Hyprland, BackendKind::Headless]
        } else {
            seq![BackendKind::Mutter, BackendKind::Hyprland, BackendKind::Headless]
        },
    }
}

/// A named compositor is tried alone, and it is the backend of the same name,
/// whatever the session. Auto detection tries each backend at most once and
/// ends with headless capture; it starts with Hyprland exactly in a Hyprland
/// session, where it does not try Mutter, and elsewhere tries Mutter before
/// Hyprland.
pub proof fn law_backend_choice(choice: CompositorBackend, hyprland_session: bool)
    ensures
        choice == CompositorBackend::Hyprland ==> backend_order(choice, hyprland_session)
            == seq![BackendKind::Hyprland],
        choice == CompositorBackend::Mutter ==> backend_order(choice, hyprland_session)
            == seq![BackendKind::Mutter],
        choice == CompositorBackend::Headless ==> backend_order(choice, hyprland_session)
            == seq![BackendKind::Headless],
        choice == CompositorBackend::Auto ==> {
            let o = backend_order(choice, hyprland_session);
            &&& o.len() > 0
            &&& o.last() == BackendKind::Headless
            &&& o.no_duplicates()
            &&& (o[0] == BackendKind::Hyprland <==> hyprland_session)
            &&& o.contains(BackendKind::Hyprland)
            &&& (o.contains(BackendKind::Mutter) <==> !hyprland_session)
            &&& (!hyprland_session ==> o[0] == BackendKind::Mutter && o[1]
                == BackendKind::Hyprland)
        },
{
    let o = backend_order(choice, hyprland_session);
    if choice == CompositorBackend::Auto {
        assert(o.contains(BackendKind::Hyprland)) by {
            if hyprland_session {
                assert(o[0] == BackendKind::Hyprland);
            } else {
                assert(o[1] == BackendKind::Hyprland);
            }
        }
        if !hyprland_session {
            assert(o[0] == BackendKind::Mutter);
        } else {
            assert(!o.contains(BackendKind::Mutter)) by {
                if o.contains(BackendKind::Mutter) {
                    let i = choose|i: int| 0 <= i < o.len() && o[i] == BackendKind::Mutter;
                    assert(i == 0 || i == 1);
                }
            }
        }
    }
}

/// See [`backend_order`].
pub fn backend_attempts(choice: CompositorBackend, hyprland_session: bool) -> (v: Vec<
    BackendKind,
>)
    ensures
        v@ == backend_order(choice, hyprland_session),
{
    let mut v: Vec<BackendKind> = Vec::new();
    match choice {
        CompositorBackend::Hyprland => v.push(BackendKind::Hyprland),
        CompositorBackend::Mutter => v.push(BackendKind::Mutter),
        CompositorBackend::Headless => v.push(BackendKind::Headless),
        CompositorBackend::Auto => {
            if hyprland_session {
                v.push(BackendKind::Hyprland);
            } else {
                v.push(BackendKind::Mutter);
                v.push(BackendKind::Hyprland);
            }
            v.push(BackendKind::Headless);
        },
    }
    assert(v@ =~= backend_order(choice, hyprland_session));
    v
}

/// What `str::to_lowercase` makes of a string (Unicode lower-case mapping).
pub uninterp spec fn lowercase(s: Seq<char>) -> Seq<char>;

/// `str::to_lowercase`; its result is named [`lowercase`].
#[verifier::external_body]
fn to_lowercase(s: &str) -> (r: String)
    ensures
        r@ == lowercase(s@),
{
    s.to_lowercase()
}

/// The characters of a string, in order.
fn chars_of(s: &str) -> (v: Vec<char>)
    ensures
        v@ == s@,
{
    let mut it = s.chars();
    let mut v: Vec<char> = Vec::new();
    loop
        invariant
            v@ + it.remaining() == s@,
        ensures
            v@ == s@,
        decreases s@.len() - v@.len(),
    {
        let c = it.next();
        match c {
            Some(ch) => v.push(ch),
            None => {
                assert(v@ + it.remaining() =~= v@);
                break;
            },
        }
    }
    v
}

/// Whether `needle` occurs in `hay` as consecutive characters, as
/// `str::contains` answers with a string pattern.
fn str_contains(hay: &str, needle: &str) -> (r: bool)
    ensures
        r == contains_text(hay@, needle@),
{
    let h = chars_of(hay);
    let n = chars_of(needle);
    if n.len() > h.len() {
        return false;
    }
    let last = h.len() - n.len();
    let mut i: usize = 0;
    while i <= last
        invariant
            h@ == hay@,
            n@ == needle@,
            last == h.len() - n.len(),
            i <= last + 1,
            forall|k: int| 0 <= k < i ==> #[trigger] hay@.subrange(k, k + needle@.len()) != needle@,
        decreases last + 1 - i,
    {
        let mut j: usize = 0;
        let mut same = true;
        while j < n.len()
            invariant
                h@ == hay@,
                n@ == needle@,
                i <= last,
                last == h.len() - n.len(),
                j <= n.len(),
                same == (forall|m: int| 0 <= m < j ==> h@[i + m] == n@[m]),
            decreases n.len() - j,
        {
            if h[i + j] != n[j] {
                same = false;
            }
            j = j + 1;
        }
        if same {
            assert(hay@.subrange(i as int, i + needle@.len()) =~= needle@);
            return true;
        }
        assert(hay@.subrange(i as int, i + needle@.len()) != needle@) by {
            let m = choose|m: int| 0 <= m < n.len() && h@[i + m] != n@[m];
            assert(hay@.subrange(i as int, i + needle@.len())[m] == h@[i + m]);
        }
        i = i + 1;
    }
    false
}

/// Whether a lower-case desktop name mentions Hyprland or Omarchy.
pub open spec fn names_hyprland(lower: Seq<char>) -> bool {
    contains_text(lower, "hyprland"@) || contains_text(lower, "omarchy"@)
}

/// Whether the running session is Hyprland (Omarchy): the Hyprland instance
/// signature is set, or the desktop name, in lower case, mentions Hyprland or
/// Omarchy.
pub open spec fn hyprland_session(signature_set: bool, desktop: Option<Seq<char>>) -> bool {
    signature_set || match desktop {
        Some(d) => names_hyprland(lowercase(d)),
        None => false,
    }
}

/// See [`names_hyprland`]; `lower` is a desktop name already in lower case.
pub fn mentions_hyprland(lower: &str) -> (r: bool)
    ensures
        r == names_hyprland(lower@),
{
    str_contains(lower, "hyprland") || str_contains(lower, "omarchy")
}

/// See [`hyprland_session`]; `desktop` is the value of `XDG_CURRENT_DESKTOP`.
pub fn is_hyprland_session(signature_set: bool, desktop: Option<&str>) -> (r: bool)
    ensures
        r == hyprland_session(
            signature_set,
            match desktop {
                Some(d) => Some(d@),
                None => None,
            },
        ),
{
    if signature_set {
        return true;
    }
    match desktop {
        Some(d) => {
            let lower = to_lowercase(d);
            mentions_hyprland(lower.as_str())
        },
        None => false,
    }
}

/// The headless output that Hyprland creates for the host.
pub struct HyprlandVirtualMonitorManager {
    output_name: String,
    created: bool,
}

impl View for HyprlandVirtualMonitorManager {
    /// The output's name and whether the output has been created.
    type V = (Seq<char>, bool);

    closed spec fn view(&self) -> (Seq<char>, bool) {
        (self.output_name@, self.created)
    }
}

/// The mode rule for an output: `name,WIDTHxHEIGHT@RATE,auto,1`.
pub open spec fn monitor_rule(name: Seq<char>, width: u32, height: u32, refresh_rate: u32) -> Seq<
    char,
> {
    name + ","@ + decimal(width as nat) + "x"@ + decimal(height as nat) + "@"@ + decimal(
        refresh_rate as nat,
    ) + ",auto,1"@
}

impl HyprlandVirtualMonitorManager {
    /// A manager for the output "EXTENDER-1", not yet created.
    pub fn for_default_output() -> (m: Self)
        ensures
            m@ == ("EXTENDER-1"@, false),
    {
        HyprlandVirtualMonitorManager { output_name: String::from_str("EXTENDER-1"), created: false }
    }

    pub fn output_name(&self) -> (s: &str)
        ensures
            s@ == self@.0,
    {
        self.output_name.as_str()
    }

    pub fn is_created(&self) -> (b: bool)
        ensures
            b == self@.1,
    {
        self.created
    }

    /// Arguments of `hyprctl` that create the headless output.
    pub fn create_output_args(&self) -> (args: Vec<String>)
        ensures
            args@.len() == 4,
            args@[0]@ == "output"@,
            args@[1]@ == "create"@,
            args@[2]@ == "headless"@,
            args@[3]@ == self@.0,
    {
        let mut args: Vec<String> = Vec::new();
        args.push(String::from_str("output"));
        args.push(String::from_str("create"));
        args.push(String::from_str("headless"));
        args.push(self.output_name.clone());
        args
    }

    /// See [`monitor_rule`].
    pub fn monitor_rule(&self, width: u32, height: u32, refresh_rate: u32) -> (s: String)
        ensures
            s@ == monitor_rule(self@.0, width, height, refresh_rate),
    {
        let mut s = self.output_name.clone();
        s.append(",");
        let w = decimal_string(width as u64);
        s.append(w.as_str());
        s.append("x");
        let h = decimal_string(height as u64);
        s.append(h.as_str());
        s.append("@");
        let r = decimal_string(refresh_rate as u64);
        s.append(r.as_str());
        s.append(",auto,1");
        s
    }

    /// Arguments of `hyprctl` that set the output's resolution, refresh rate
    /// and position.
    pub fn configure_monitor_args(&self, width: u32, height: u32, refresh_rate: u32) -> (args:
        Vec<String>)
        ensures
            args@.len() == 3,
            args@[0]@ == "keyword"@,
            args@[1]@ == "monitor"@,
            args@[2]@ == monitor_rule(self@.0, width, height, refresh_rate),
    {
        let mut args: Vec<String> = Vec::new();
        args.push(String::from_str("keyword"));
        args.push(String::from_str("monitor"));
        args.push(self.monitor_rule(width, height, refresh_rate));
        args
    }

    /// Records that the output exists.
    pub fn mark_created(&mut self)
        ensures
            final(self)@ == (old(self)@.0, true),
    {
        self.created = true;
    }

    /// When the output exists, the arguments of `hyprctl` that remove it, and
    /// the output is recorded as gone; otherwise nothing.
    pub fn take_removal_args(&mut self) -> (r: Option<Vec<String>>)
        ensures
            final(self)@ == (old(self)@.0, false),
            r is Some <==> old(self)@.1,
            r matches Some(args) ==> args@.len() == 3 && args@[0]@ == "output"@ && args@[1]@
                == "remove"@ && args@[2]@ == old(self)@.0,
    {
        if self.created {
            self.created = false;
            let mut args: Vec<String> = Vec::new();
            args.push(String::from_str("output"));
            args.push(String::from_str("remove"));
            args.push(self.output_name.clone());
            Some(args)
        } else {
            None
        }
    }
}

/// The ScreenCast recording a Mutter session asks for: a virtual output where
/// Mutter accepts one, else the monitor on the named connector.
#[derive(Debug, Clone, PartialEq)]
pub enum MutterRecording {
    Virtual,
    Monitor { connector: String },
}

/// The recording to ask for after `RecordVirtual` was answered:
/// `virtual_accepted` tells whether it gave a stream. Otherwise the monitor on
/// connector "HDMI-2" is recorded.
pub fn mutter_recording(virtual_accepted: bool) -> (r: MutterRecording)
    ensures
        virtual_accepted ==> r is Virtual,
        !virtual_accepted ==> (r matches MutterRecording::Monitor { connector } && connector@
            == "HDMI-2"@),
{
    if virtual_accepted {
        MutterRecording::Virtual
    } else {
        MutterRecording::Monitor { connector: String::from_str("HDMI-2") }
    }
}

/// The PipeWire node of a Mutter stream: the one its `PipeWireStreamAdded`
/// signal announced, or 0 where none was read (the wait timed out, the signal
/// stream ended, or its body did not hold a node).
pub fn mutter_node_id(announced: Option<u32>) -> (r: u32)
    ensures
        r == match announced {
            Some(n) => n,
            None => 0,
        },
{
    match announced {
        Some(n) => n,
        None => 0,
    }
}

} // verus!
