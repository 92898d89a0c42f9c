//! Finding the Frida tools and writing their command lines.
use crate::models::{opt_text, text_or, texts, FridaConfig, FridaConfigView};
use crate::text::{decimal, decimal_text, ends_with};
use vstd::prelude::*;

verus! {

/// The configured Frida executable, when one is set and not empty.
pub open spec fn custom_frida_path(config: FridaConfigView) -> Option<Seq<char>> {
    match config.frida_path {
        Some(p) => if p.len() > 0 {
            Some(p)
        } else {
            None
        },
        None => None,
    }
}

/// Where Frida is: the configured executable, else the one found on the
/// search path, else an error.
pub open spec fn frida_path_choice(config: FridaConfigView, found: Option<Seq<char>>) -> Result<
    Seq<char>,
    Seq<char>,
> {
    match custom_frida_path(config) {
        Some(p) => Ok(p),
        None => match found {
            Some(p) => Ok(p),
            None => Err("Frida not found in PATH"@),
        },
    }
}

/// The texts of a result of strings.
pub open spec fn text_result(r: Result<String, String>) -> Result<Seq<char>, Seq<char>> {
    match r {
        Ok(s) => Ok(s@),
        Err(e) => Err(e@),
    }
}

/// The device Frida talks to: the configured one, `usb` by default.
pub open spec fn device_of(config: FridaConfigView) -> Seq<char> {
    text_or(config.device_id, "usb"@)
}

/// The device options of a Frida command line: `-U` for the USB device
/// (`usb` or `U`), else `-D <device>`.
pub open spec fn device_args(device: Seq<char>) -> Seq<Seq<char>> {
    if device == "usb"@ || device == "U"@ {
        seq!["-U"@]
    } else {
        seq!["-D"@, device]
    }
}

/// The arguments of `frida-ps` that list the applications of the device.
pub open spec fn frida_ps_arguments(config: FridaConfigView) -> Seq<Seq<char>> {
    device_args(device_of(config)).push("-a"@)
}

/// The arguments of `frida` that attach to process `pid` and load `script`.
pub open spec fn frida_arguments(config: FridaConfigView, pid: u32, script: Seq<char>) -> Seq<
    Seq<char>,
> {
    device_args(device_of(config)) + seq!["-p"@, decimal(pid as nat), "-l"@, script]
}

/// The file name of `frida-ps` on the platform.
pub open spec fn frida_ps_name(windows: bool) -> Seq<char> {
    if windows {
        "frida-ps.exe"@
    } else {
        "frida-ps"@
    }
}

/// The error for a `frida-ps` that is not where it was looked for; `shown`
/// is the path as `{:?}` writes it.
pub open spec fn missing_frida_ps_text(shown: Seq<char>) -> Seq<char> {
    "frida-ps not found at: "@ + shown + ". Please make sure frida-tools is installed."@
}

/// `which::which("frida")`: the Frida executable on the search path, written
/// as text (`to_string_lossy`).  It depends on the environment and the disk,
/// so nothing is claimed of it.
#[verifier::external_body]
fn which_frida() -> Option<String> {
    which::which("frida").ok().map(|p| p.to_string_lossy().into_owned())
}

/// The parent that `Path::parent` gives of a path, written as text
/// (`to_string_lossy`), under the path rules of the platform the library
/// is built for.
pub uninterp spec fn path_parent_text(p: Seq<char>) -> Option<Seq<char>>;

/// The path that `Path::join` makes of a base and a name, written as text,
/// under the path rules of the platform the library is built for.
pub uninterp spec fn path_joined(base: Seq<char>, name: Seq<char>) -> Seq<char>;

/// A path as `{:?}` writes it (`Path`'s `Debug`).
pub uninterp spec fn path_debug(p: Seq<char>) -> Seq<char>;

/// A file name that `Path::join` adjoins as one relative component: not
/// empty, not `.` or `..` (it has a character other than `.`), with no
/// separator (`/` or `\`) and no drive prefix (`:`).
pub open spec fn plain_file_name(name: Seq<char>) -> bool {
    &&& name.len() > 0
    &&& exists|i: int| 0 <= i < name.len() && #[trigger] name[i] != '.'
    &&& forall|i: int|
        0 <= i < name.len() ==> #[trigger] name[i] != '/' && name[i] != '\\' && name[i] != ':'
}

/// `Path::parent`, written as text.  Claimed: the result is a function of the
/// path, named `path_parent_text`; as the documentation says, the empty path
/// and a path that ends in a root (`/`) have no parent, and a path of one
/// plain file name has the empty path as its parent.
#[verifier::external_body]
fn path_parent(p: &str) -> (r: Option<String>)
    ensures
        opt_text(r) == path_parent_text(p@),
        p@.len() == 0 ==> r is None,
        p@ == seq!['/'] ==> r is None,
        plain_file_name(p@) ==> opt_text(r) == Some(Seq::<char>::empty()),
{
    std::path::Path::new(p).parent().map(|q| q.to_string_lossy().into_owned())
}

/// `Path::join`, written as text.  Claimed: the result is a function of the
/// two texts, named `path_joined`; and, as the documentation of
/// `PathBuf::push` says, a relative file name extends the base, so the
/// result ends with it.
#[verifier::external_body]
fn path_join(base: &str, name: &str) -> (r: String)
    requires
        plain_file_name(name@),
    ensures
        r@ == path_joined(base@, name@),
        ends_with(r@, name@),
{
    std::path::Path::new(base).join(name).to_string_lossy().into_owned()
}

/// `Path::exists`.  It depends on the disk, so nothing is claimed of it.
#[verifier::external_body]
pub(crate) fn path_exists(p: &str) -> bool {
    std::path::Path::new(p).exists()
}

/// A path as `{:?}` writes it (`Path`'s `Debug`).  Claimed: the text is a
/// function of the path, named `path_debug`.
#[verifier::external_body]
fn path_shown(p: &str) -> (r: String)
    ensures
        r@ == path_debug(p@),
{
    format!("{:?}", std::path::Path::new(p))
}

/// `std::path::MAIN_SEPARATOR`, the platform's path separator.  Nothing is
/// claimed of it.
#[verifier::external_body]
fn main_separator() -> char {
    std::path::MAIN_SEPARATOR
}

/// Whether the library runs on Windows, the one platform whose path separator
/// is a backslash.
pub fn on_windows() -> bool {
    main_separator() == '\\'
}

/// Both file names of `frida-ps` are plain file names.
proof fn lemma_frida_ps_name_plain(windows: bool)
    ensures
        plain_file_name(frida_ps_name(windows)),
{
    reveal_strlit("frida-ps.exe");
    reveal_strlit("frida-ps");
    assert(frida_ps_name(windows)[0] != '.');
}

/// Frida is available, as `is_available` and `get_frida_path` both judge it
/// from the same search-path result `found`, exactly when an executable is
/// configured (whether or not it exists) or the search path gave one; and
/// where it is available, the path is the configured one if any.
pub proof fn law_available_iff_found(config: FridaConfigView, found: Option<Seq<char>>)
    ensures
        frida_path_choice(config, found) is Ok <==> (custom_frida_path(config) is Some || found is Some),
        custom_frida_path(config) matches Some(p) ==> frida_path_choice(config, found) == Ok::<
            Seq<char>,
            Seq<char>,
        >(p),
        found is Some && custom_frida_path(config) is None ==> frida_path_choice(config, found)
            == Ok::<Seq<char>, Seq<char>>(found.unwrap()),
{
}

/// The USB device is chosen by the id `usb`, by `U` and when no id is set:
/// the command lines then begin with `-U` alone, so that no id is set and
/// `usb` give the same command lines.  Any other id `d` is passed on as
/// `-D d`.  After the device come `-a` for `frida-ps`, and for `frida` the
/// pid in decimal behind `-p` and the script behind `-l`.
pub proof fn law_device_selection(config: FridaConfigView, pid: u32, script: Seq<char>)
    ensures
        (config.device_id is None || config.device_id == Some("usb"@) || config.device_id == Some(
            "U"@,
        )) ==> frida_ps_arguments(config) == seq!["-U"@, "-a"@] && frida_arguments(config, pid, script)
            == seq!["-U"@, "-p"@, decimal(pid as nat), "-l"@, script],
        config.device_id is Some && config.device_id.unwrap() != "usb"@ && config.device_id.unwrap()
            != "U"@ ==> frida_ps_arguments(config) == seq!["-D"@, config.device_id.unwrap(), "-a"@]
            && frida_arguments(config, pid, script) == seq![
            "-D"@,
            config.device_id.unwrap(),
            "-p"@,
            decimal(pid as nat),
            "-l"@,
            script,
        ],
        frida_ps_arguments(FridaConfigView { device_id: None, ..config }) == frida_ps_arguments(
            FridaConfigView { device_id: Some("usb"@), ..config },
        ),
        frida_arguments(FridaConfigView { device_id: None, ..config }, pid, script) == frida_arguments(
            FridaConfigView { device_id: Some("usb"@), ..config },
            pid,
            script,
        ),
{
    assert(seq!["-U"@].push("-a"@) =~= seq!["-U"@, "-a"@]);
    assert(seq!["-U"@] + seq!["-p"@, decimal(pid as nat), "-l"@, script] =~= seq![
        "-U"@,
        "-p"@,
        decimal(pid as nat),
        "-l"@,
        script,
    ]);
    if let Some(d) = config.device_id {
        assert(seq!["-D"@, d].push("-a"@) =~= seq!["-D"@, d, "-a"@]);
        assert(seq!["-D"@, d] + seq!["-p"@, decimal(pid as nat), "-l"@, script] =~= seq![
            "-D"@,
            d,
            "-p"@,
            decimal(pid as nat),
            "-l"@,
            script,
        ]);
    }
}

/// Where `frida-ps` is looked for beside the Frida executable `fp`: its
/// parent directory joined with the platform's `frida-ps` file name; none
/// when `fp` has no parent.
pub open spec fn frida_ps_candidate(fp: Seq<char>, windows: bool) -> Option<Seq<char>> {
    match path_parent_text(fp) {
        Some(dir) => Some(path_joined(dir, frida_ps_name(windows))),
        None => None,
    }
}

/// What becomes of a candidate for `frida-ps`, given whether it exists: it
/// is the answer when it exists; else the error names it as `{:?}` writes
/// it; without a candidate the Frida path is invalid.
pub open spec fn frida_ps_verdict(candidate: Option<Seq<char>>, present: bool) -> Result<
    Seq<char>,
    Seq<char>,
> {
    match candidate {
        None => Err("Invalid frida path"@),
        Some(c) => if present {
            Ok(c)
        } else {
            Err(missing_frida_ps_text(path_debug(c)))
        },
    }
}

/// Where `frida-ps` is, given where Frida is, the platform and whether the
/// candidate exists: an error finding Frida is passed on as it is.
pub open spec fn frida_ps_outcome(
    frida: Result<Seq<char>, Seq<char>>,
    windows: bool,
    present: bool,
) -> Result<Seq<char>, Seq<char>> {
    match frida {
        Err(e) => Err(e),
        Ok(fp) => frida_ps_verdict(frida_ps_candidate(fp, windows), present),
    }
}

/// Where `frida-ps` is looked for beside the Frida executable `frida_path`.
pub fn frida_ps_candidate_path(frida_path: &str, windows: bool) -> (r: Option<String>)
    ensures
        opt_text(r) == frida_ps_candidate(frida_path@, windows),
        r matches Some(c) ==> ends_with(c@, frida_ps_name(windows)),
        frida_path@ == seq!['/'] ==> r is None,
        plain_file_name(frida_path@) ==> opt_text(r) == Some(
            path_joined(Seq::<char>::empty(), frida_ps_name(windows)),
        ),
{
    match path_parent(frida_path) {
        Some(dir) => {
            let name = frida_ps_file_name(windows);
            proof {
                lemma_frida_ps_name_plain(windows);
            }
            Some(path_join(dir.as_str(), name))
        },
        None => None,
    }
}

/// What becomes of a candidate for `frida-ps`, given whether it exists.
pub fn frida_ps_result(candidate: Option<String>, present: bool) -> (r: Result<String, String>)
    ensures
        text_result(r) == frida_ps_verdict(opt_text(candidate), present),
{
    match candidate {
        None => Err(String::from_str("Invalid frida path")),
        Some(c) => {
            if present {
                Ok(c)
            } else {
                let shown = path_shown(c.as_str());
                Err(missing_frida_ps_message(shown.as_str()))
            }
        },
    }
}

/// The file name of `frida-ps` on the platform.
pub fn frida_ps_file_name(windows: bool) -> (r: &'static str)
    ensures
        r@ == frida_ps_name(windows),
{
    if windows {
        "frida-ps.exe"
    } else {
        "frida-ps"
    }
}

/// The error for a `frida-ps` that is not where it was looked for.
pub fn missing_frida_ps_message(shown: &str) -> (r: String)
    ensures
        r@ == missing_frida_ps_text(shown@),
{
    let mut m = String::from_str("frida-ps not found at: ");
    m.append(shown);
    m.append(". Please make sure frida-tools is installed.");
    m
}

/// Where Frida is, given what the search path gave.
pub fn frida_path_from(config: &FridaConfig, found: Option<String>) -> (r: Result<String, String>)
    ensures
        text_result(r) == frida_path_choice(config@, opt_text(found)),
{
    if let Some(custom) = &config.frida_path {
        if !custom.as_str().is_empty() {
            return Ok(custom.clone());
        }
    }
    match found {
        Some(p) => Ok(p),
        None => Err(String::from_str("Frida not found in PATH")),
    }
}

/// The device options of a Frida command line.
fn device_arguments(config: &FridaConfig) -> (r: Vec<String>)
    ensures
        texts(r@) == device_args(device_of(config@)),
{
    let device = match &config.device_id {
        Some(d) => d.clone(),
        None => String::from_str("usb"),
    };
    let mut r: Vec<String> = Vec::new();
    if device == String::from_str("usb") || device == String::from_str("U") {
        r.push(String::from_str("-U"));
        assert(texts(r@) =~= seq!["-U"@]);
    } else {
        r.push(String::from_str("-D"));
        r.push(device);
        assert(texts(r@) =~= seq!["-D"@, device_of(config@)]);
    }
    r
}

/// Drives the Frida tools as its configuration says.
pub struct FridaManager {
    pub config: FridaConfig,
}

impl FridaManager {
    /// A manager with the given configuration.
    pub fn new(config: FridaConfig) -> (r: Self)
        ensures
            r.config == config,
    {
        Self { config }
    }

    /// Replaces the configuration.
    pub fn update_config(&mut self, config: FridaConfig)
        ensures
            final(self).config == config,
    {
        self.config = config;
    }

    /// The Frida executable: the configured one when it is set and not
    /// empty, else the one on the search path.
    pub fn get_frida_path(&self) -> (r: Result<String, String>)
        ensures
            exists|found: Option<Seq<char>>| text_result(r) == #[trigger] frida_path_choice(
                self.config@,
                found,
            ),
            custom_frida_path(self.config@) matches Some(p) ==> text_result(r) == Ok::<
                Seq<char>,
                Seq<char>,
            >(p),
            r matches Err(m) ==> custom_frida_path(self.config@) is None && m@
                == "Frida not found in PATH"@,
    {
        let custom = match &self.config.frida_path {
            Some(p) => !p.as_str().is_empty(),
            None => false,
        };
        if custom {
            let r = frida_path_from(&self.config, None);
            assert(text_result(r) == frida_path_choice(self.config@, None));
            r
        } else {
            let found = which_frida();
            let ghost seen = opt_text(found);
            let r = frida_path_from(&self.config, found);
            assert(text_result(r) == frida_path_choice(self.config@, seen));
            r
        }
    }

    /// The `frida-ps` executable that sits beside the Frida executable, when
    /// it exists: what `frida_ps_outcome` makes of where Frida was found,
    /// the platform and whether the candidate exists on disk.
    pub fn get_frida_ps_path(&self) -> (r: Result<String, String>)
        ensures
            exists|found: Option<Seq<char>>, windows: bool, present: bool|
                text_result(r) == #[trigger] frida_ps_outcome(
                    frida_path_choice(self.config@, found),
                    windows,
                    present,
                ),
            custom_frida_path(self.config@) == Some(seq!['/']) ==> text_result(r) == Err::<
                Seq<char>,
                Seq<char>,
            >("Invalid frida path"@),
            custom_frida_path(self.config@) matches Some(p) && plain_file_name(p) ==> exists|
                windows: bool,
                present: bool,
            |
                text_result(r) == #[trigger] frida_ps_verdict(
                    Some(path_joined(Seq::<char>::empty(), frida_ps_name(windows))),
                    present,
                ),
            r matches Ok(p) ==> exists|windows: bool| ends_with(p@, #[trigger] frida_ps_name(windows)),
            r matches Err(m) ==> {
                ||| custom_frida_path(self.config@) is None && m@ == "Frida not found in PATH"@
                ||| m@ == "Invalid frida path"@
                ||| exists|shown: Seq<char>| m@ == missing_frida_ps_text(shown)
            },
    {
        let fr = self.get_frida_path();
        let ghost found = choose|found: Option<Seq<char>>|
            text_result(fr) == #[trigger] frida_path_choice(self.config@, found);
        let frida_path = match fr {
            Ok(p) => p,
            Err(e) => {
                assert(text_result(Err::<String, String>(e)) == frida_ps_outcome(
                    frida_path_choice(self.config@, found),
                    true,
                    true,
                ));
                return Err(e);
            },
        };
        let windows = on_windows();
        let candidate = frida_ps_candidate_path(frida_path.as_str(), windows);
        let present = match &candidate {
            Some(c) => path_exists(c.as_str()),
            None => false,
        };
        let r = frida_ps_result(candidate, present);
        proof {
            if custom_frida_path(self.config@) is Some {
                assert(frida_path@ == custom_frida_path(self.config@).unwrap());
                if plain_file_name(frida_path@) {
                    assert(text_result(r) == frida_ps_verdict(
                        Some(path_joined(Seq::<char>::empty(), frida_ps_name(windows))),
                        present,
                    ));
                }
            }
        }
        assert(text_result(r) == frida_ps_outcome(
            frida_path_choice(self.config@, found),
            windows,
            present,
        ));
        r
    }

    /// Whether Frida can be found: whether `get_frida_path` succeeds.
    pub fn is_available(&self) -> (r: bool)
        ensures
            exists|found: Option<Seq<char>>| r == (#[trigger] frida_path_choice(
                self.config@,
                found,
            ) is Ok),
            custom_frida_path(self.config@) is Some ==> r,
    {
        let fr = self.get_frida_path();
        let ghost found = choose|found: Option<Seq<char>>|
            text_result(fr) == #[trigger] frida_path_choice(self.config@, found);
        let r = fr.is_ok();
        assert(r == (frida_path_choice(self.config@, found) is Ok));
        r
    }

    /// The arguments of `frida-ps` that list the applications of the device.
    pub fn frida_ps_args(&self) -> (r: Vec<String>)
        ensures
            texts(r@) == frida_ps_arguments(self.config@),
    {
        let mut r = device_arguments(&self.config);
        let ghost before = r@;
        r.push(String::from_str("-a"));
        assert(texts(r@) =~= texts(before).push("-a"@));
        r
    }

    /// The arguments of `frida` that attach to process `pid` and load the
    /// script at `script_path`.
    pub fn frida_args(&self, pid: u32, script_path: &str) -> (r: Vec<String>)
        ensures
            texts(r@) == frida_arguments(self.config@, pid, script_path@),
    {
        let mut r = device_arguments(&self.config);
        let ghost before = r@;
        r.push(String::from_str("-p"));
        r.push(decimal_text(pid));
        r.push(String::from_str("-l"));
        r.push(String::from_str(script_path));
        assert(texts(r@) =~= texts(before) + seq![
            "-p"@,
            decimal(pid as nat),
            "-l"@,
            script_path@,
        ]);
        r
    }
}

} // verus!
