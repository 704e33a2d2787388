//! Which probe answers each field, and the gathering of their answers.
use vstd::prelude::*;
use crate::color::{lookup, lookup_entry};
use crate::text::{push_decimal, push_text, same_text};

verus! {

/// Where a field's value comes from.
#[derive(Clone, Debug, PartialEq, Eq)]
pub enum FieldSource {
    /// A user-defined shell command.
    Command(String),
    Os,
    Hostname,
    Userhost,
    Kernel,
    Uptime,
    Cpu,
    Memory,
    Disk,
    Shell,
    Terminal,
    Packages,
    Resolution,
    DesktopEnvironment,
    WindowManager,
    /// The color palette blocks.
    Palette,
    /// A field no probe knows; it shows as "Unknown".
    Unknown,
}

/// The built-in probe for a field name.
pub open spec fn builtin_source(field: Seq<char>) -> FieldSource {
    if field == "os"@ {
        FieldSource::Os
    } else if field == "hostname"@ {
        FieldSource::Hostname
    } else if field == "userhost"@ {
        FieldSource::Userhost
    } else if field == "kernel"@ {
        FieldSource::Kernel
    } else if field == "uptime"@ {
        FieldSource::Uptime
    } else if field == "cpu"@ {
        FieldSource::Cpu
    } else if field == "memory"@ {
        FieldSource::Memory
    } else if field == "disk"@ {
        FieldSource::Disk
    } else if field == "shell"@ {
        FieldSource::Shell
    } else if field == "terminal"@ {
        FieldSource::Terminal
    } else if field == "packages"@ {
        FieldSource::Packages
    } else if field == "resolution"@ {
        FieldSource::Resolution
    } else if field == "de"@ {
        FieldSource::DesktopEnvironment
    } else if field == "wm"@ {
        FieldSource::WindowManager
    } else if field == "colors"@ {
        FieldSource::Palette
    } else {
        FieldSource::Unknown
    }
}

fn builtin_source_of(field: &str) -> (r: FieldSource)
    ensures
        r == builtin_source(field@),
{
    if same_text(field, "os") {
        FieldSource::Os
    } else if same_text(field, "hostname") {
        FieldSource::Hostname
    } else if same_text(field, "userhost") {
        FieldSource::Userhost
    } else if same_text(field, "kernel") {
        FieldSource::Kernel
    } else if same_text(field, "uptime") {
        FieldSource::Uptime
    } else if same_text(field, "cpu") {
        FieldSource::Cpu
    } else if same_text(field, "memory") {
        FieldSource::Memory
    } else if same_text(field, "disk") {
        FieldSource::Disk
    } else if same_text(field, "shell") {
        FieldSource::Shell
    } else if same_text(field, "terminal") {
        FieldSource::Terminal
    } else if same_text(field, "packages") {
        FieldSource::Packages
    } else if same_text(field, "resolution") {
        FieldSource::Resolution
    } else if same_text(field, "de") {
        FieldSource::DesktopEnvironment
    } else if same_text(field, "wm") {
        FieldSource::WindowManager
    } else if same_text(field, "colors") {
        FieldSource::Palette
    } else {
        FieldSource::Unknown
    }
}

/// Collected (field, value) pairs: each field whose probe answered, in order.
pub open spec fn gathered(fields: Seq<String>, readings: Seq<Option<String>>) -> Seq<(Seq<char>, Seq<char>)>
    decreases fields.len(),
{
    if fields.len() == 0 || readings.len() != fields.len() {
        seq![]
    } else {
        let rest = gathered(fields.drop_last(), readings.drop_last());
        match readings.last() {
            Some(v) => rest.push((fields.last()@, v@)),
            None => rest,
        }
    }
}

/// Gathers the values of a list of fields.
pub struct InfoCollector {
    pub fields: Vec<String>,
    /// (field name, shell command) pairs; the last pair for a field counts.
    pub custom_commands: Vec<(String, String)>,
}

impl InfoCollector {
    pub fn new(fields: Vec<String>, custom_commands: Vec<(String, String)>) -> (r: Self)
        ensures
            r.fields == fields,
            r.custom_commands == custom_commands,
    {
        InfoCollector { fields, custom_commands }
    }

    /// Where the value of `field` comes from: its custom command if it has
    /// one, else the built-in probe of that name.
    pub fn collect_field(&self, field: &str) -> (r: FieldSource)
        ensures
            match lookup(self.custom_commands@, field@) {
                Some(c) => r matches FieldSource::Command(cmd) && cmd@ == c,
                None => r == builtin_source(field@),
            },
    {
        match lookup_entry(&self.custom_commands, field) {
            Some(c) => FieldSource::Command(c.clone()),
            None => builtin_source_of(field),
        }
    }

    /// The (field, value) pairs of the fields whose probe answered, in field
    /// order; `readings[i]` is the answer for `fields[i]` (`None`: it failed).
    pub fn collect_all(&self, readings: &Vec<Option<String>>) -> (r: Vec<(String, String)>)
        requires
            readings@.len() == self.fields@.len(),
        ensures
            r@.len() == gathered(self.fields@, readings@).len(),
            forall|i: int|
                0 <= i < r@.len() ==> (#[trigger] r@[i].0@, r@[i].1@) == gathered(self.fields@, readings@)[i],
    {
        let mut out: Vec<(String, String)> = Vec::new();
        let mut i: usize = 0;
        while i < self.fields.len()
            invariant
                i <= self.fields@.len(),
                readings@.len() == self.fields@.len(),
                out@.len() == gathered(self.fields@.subrange(0, i as int), readings@.subrange(0, i as int)).len(),
                forall|k: int|
                    0 <= k < out@.len() ==> (#[trigger] out@[k].0@, out@[k].1@) == gathered(
                        self.fields@.subrange(0, i as int),
                        readings@.subrange(0, i as int),
                    )[k],
            decreases self.fields@.len() - i,
        {
            assert(self.fields@.subrange(0, i + 1).drop_last() =~= self.fields@.subrange(0, i as int));
            assert(readings@.subrange(0, i + 1).drop_last() =~= readings@.subrange(0, i as int));
            if let Some(v) = &readings[i] {
                out.push((self.fields[i].clone(), v.clone()));
            }
            i = i + 1;
        }
        assert(self.fields@.subrange(0, i as int) =~= self.fields@);
        assert(readings@.subrange(0, i as int) =~= readings@);
        out
    }
}

/// Messages that may be logged at start-up.
pub open spec fn startup_messages() -> Seq<Seq<char>> {
    seq![
        "Scanning system information"@,
        "Gathering hardware details"@,
        "Collecting software inventory"@,
        "Analyzing system performance"@,
        "Reading configuration files"@,
        "Preparing display output"@,
        "Initializing system probe"@,
        "Loading hardware drivers"@,
        "Calibrating sensors"@,
        "Establishing system baseline"@,
    ]
}

/// The start-up message picked by `seed`: the one at `seed` modulo their number.
pub fn get_random_startup_message(seed: u64) -> (r: &'static str)
    ensures
        r@ == startup_messages()[(seed % 10) as int],
{
    let i = seed % 10;
    if i == 0 {
        "Scanning system information"
    } else if i == 1 {
        "Gathering hardware details"
    } else if i == 2 {
        "Collecting software inventory"
    } else if i == 3 {
        "Analyzing system performance"
    } else if i == 4 {
        "Reading configuration files"
    } else if i == 5 {
        "Preparing display output"
    } else if i == 6 {
        "Initializing system probe"
    } else if i == 7 {
        "Loading hardware drivers"
    } else if i == 8 {
        "Calibrating sensors"
    } else {
        "Establishing system baseline"
    }
}

/// CPU summary: brand, core count and, where known (non-zero), the frequency.
pub open spec fn cpu_text(brand: Seq<char>, cores: nat, mhz: nat) -> Seq<char> {
    brand + " ("@ + crate::text::decimal(cores) + " cores)"@ + if mhz > 0 {
        " @ "@ + crate::text::decimal(mhz) + " MHz"@
    } else {
        seq![]
    }
}

/// Formats the CPU field from the brand (already trimmed), the number of
/// cores and the frequency in MHz (0 where unknown).
pub fn cpu_summary(brand: &str, cores: u64, mhz: u64) -> (r: String)
    ensures
        r@ == cpu_text(brand@, cores as nat, mhz as nat),
{
    let mut out = String::new();
    push_text(&mut out, brand);
    push_text(&mut out, " (");
    push_decimal(&mut out, cores);
    push_text(&mut out, " cores)");
    if mhz > 0 {
        push_text(&mut out, " @ ");
        push_decimal(&mut out, mhz);
        push_text(&mut out, " MHz");
    }
    assert(out@ =~= cpu_text(brand@, cores as nat, mhz as nat));
    out
}

} // verus!
