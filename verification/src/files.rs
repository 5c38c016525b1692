//! Loading and saving engine configurations: what is asked of the file system, and what is
//! reported of its answers.

use crate::engine::{Engine, Generator};
use crate::waterfall::Purpose;
use vstd::prelude::*;

verus! {

/// How an engine configuration is written down.
#[derive(Clone, Copy, PartialEq, Eq, Structural, Debug)]
pub enum ConfigFormat {
    Json,
    Ron,
}

/// A request to load an engine configuration.
pub struct LoadRequest {
    pub path: String,
    pub sample_rate: u32,
    /// Whether the file holds JSON, not RON.
    pub json: bool,
}

/// What became of saving an engine configuration.
pub enum SaveOutcome {
    Saved,
    /// The configuration could not be written down, with the reason.
    NotSerialized(String),
    /// The file could not be created, with the reason.
    NotCreated(String),
}

/// A line for the terminal.
pub struct Report {
    pub text: String,
    /// Whether the line tells of an error.
    pub error: bool,
}

/// A kind of file that a dialog offers.
pub struct Filter {
    pub description: &'static str,
    pub extensions: Vec<&'static str>,
}

/// `text` ends in "json".
pub open spec fn ends_in_json(text: Seq<char>) -> bool {
    text.len() >= 4 && text.subrange(text.len() - 4, text.len() as int) == "json"@
}

/// The request to load the file at `path`.
pub open spec fn request_for(path: String, sample_rate: u32) -> LoadRequest {
    LoadRequest { path, sample_rate, json: ends_in_json(path@) }
}

/// `text` in double quotes, with `lead` in front.
pub open spec fn quoted(lead: Seq<char>, text: Seq<char>) -> Seq<char> {
    lead + text + "\""@
}

/// What is reported of loading the configuration at `path`, with the reason where it failed.
pub open spec fn load_report_text(path: Seq<char>, reason: Option<Seq<char>>) -> Seq<char> {
    match reason {
        None => quoted("Successfully loaded engine config \""@, path),
        Some(why) => quoted("Failed to load engine config \""@, path) + ": "@ + why,
    }
}

/// What is reported of saving the configuration at `path`.
pub open spec fn save_report_text(path: Seq<char>, outcome: SaveOutcome) -> Seq<char> {
    match outcome {
        SaveOutcome::Saved => quoted("Successfully saved engine config \""@, path),
        SaveOutcome::NotSerialized(why) => "Failed to save engine config: "@ + why@,
        SaveOutcome::NotCreated(why) => "Failed to create file for saving engine config: "@ + why@,
    }
}

/// What is reported when a dialog is left without choosing a file.
pub open spec fn cancel_report_text(purpose: Purpose) -> Seq<char> {
    match purpose {
        Purpose::SaveRecording => "Aborted recording"@,
        Purpose::SaveConfig => "Cancelled saving"@,
        Purpose::LoadConfig => "Cancelled file loading dialog"@,
    }
}

/// Whether `text` ends in "json".
pub fn is_json(text: &str) -> (r: bool)
    ensures
        r == ends_in_json(text@),
{
    let len: usize = text.unicode_len();
    if len < 4 {
        return false;
    }
    proof {
        reveal_strlit("json");
    }
    let r = text.get_char(len - 4) == 'j' && text.get_char(len - 3) == 's' && text.get_char(
        len - 2,
    ) == 'o' && text.get_char(len - 1) == 'n';
    let ghost end = text@.subrange(text@.len() - 4, text@.len() as int);
    assert(end.len() == 4 && "json"@.len() == 4);
    if r {
        assert(end =~= "json"@);
    } else {
        assert(end[0] != "json"@[0] || end[1] != "json"@[1] || end[2] != "json"@[2] || end[3]
            != "json"@[3]);
    }
    r
}

/// The request to load the configuration at `path`.
pub fn load_request(path: String, sample_rate: u32) -> (r: LoadRequest)
    ensures
        r == request_for(path, sample_rate),
{
    let json = is_json(path.as_str());
    LoadRequest { path, sample_rate, json }
}

/// The format in which a file with this extension is written: JSON for "json", else RON.
pub fn save_format(extension: Option<&str>) -> (r: ConfigFormat)
    ensures
        r == if extension matches Some(text) && text@ == "json"@ {
            ConfigFormat::Json
        } else {
            ConfigFormat::Ron
        },
{
    proof {
        reveal_strlit("json");
    }
    match extension {
        Some(text) => {
            if text.unicode_len() == 4 && is_json(text) {
                assert(text@.subrange(0, 4) =~= text@);
                ConfigFormat::Json
            } else {
                assert(text@.len() == 4 ==> text@.subrange(0, 4) =~= text@);
                ConfigFormat::Ron
            }
        },
        None => ConfigFormat::Ron,
    }
}

fn quote(lead: &str, text: &str) -> (r: String)
    ensures
        r@ == quoted(lead@, text@),
{
    let mut r = lead.to_owned();
    r.append(text);
    r.append("\"");
    r
}

/// `generator` after an attempt to load an engine: with the engine that was loaded, or as it was.
pub open spec fn after_load<V, L, F, R>(
    generator: Generator<V, L, F, R>,
    loaded: Result<Engine<V, L, F>, String>,
) -> Generator<V, L, F, R> {
    match loaded {
        Ok(engine) => Generator { engine, ..generator },
        Err(_) => generator,
    }
}

/// `generator` after one attempt to load an engine after the other.
pub open spec fn after_loads<V, L, F, R>(
    generator: Generator<V, L, F, R>,
    loads: Seq<Result<Engine<V, L, F>, String>>,
) -> Generator<V, L, F, R>
    decreases loads.len(),
{
    if loads.len() == 0 {
        generator
    } else {
        after_load(after_loads(generator, loads.drop_last()), loads.last())
    }
}

/// `r` reports how loading the configuration at `path` went.
pub open spec fn load_report_of<E>(
    path: Seq<char>,
    loaded: Result<E, String>,
    r: Report,
) -> bool {
    match loaded {
        Ok(_) => r.text@ == load_report_text(path, None) && !r.error,
        Err(reason) => r.text@ == load_report_text(path, Some(reason@)) && r.error,
    }
}

/// Puts a configuration in place that was loaded, and reports how that went. Where loading failed,
/// the engine stays as it is.
pub fn finish_load<V, L, F, R>(
    generator: &mut Generator<V, L, F, R>,
    path: &str,
    loaded: Result<Engine<V, L, F>, String>,
) -> (r: Report)
    ensures
        *final(generator) == after_load(*old(generator), loaded),
        load_report_of(path@, loaded, r),
        match loaded {
            Ok(_) => r.text@ == load_report_text(path@, None) && !r.error,
            Err(reason) => r.text@ == load_report_text(path@, Some(reason@)) && r.error,
        },
{
    match loaded {
        Ok(engine) => {
            generator.engine = engine;
            Report { text: quote("Successfully loaded engine config \"", path), error: false }
        },
        Err(reason) => {
            let mut text = quote("Failed to load engine config \"", path);
            text.append(": ");
            text.append(reason.as_str());
            Report { text, error: true }
        },
    }
}

/// Reports how saving a configuration at `path` went.
pub fn save_report(path: &str, outcome: &SaveOutcome) -> (r: Report)
    ensures
        r.text@ == save_report_text(path@, *outcome),
        r.error == !(outcome is Saved),
{
    match outcome {
        SaveOutcome::Saved => Report {
            text: quote("Successfully saved engine config \"", path),
            error: false,
        },
        SaveOutcome::NotSerialized(reason) => {
            let mut text = "Failed to save engine config: ".to_owned();
            text.append(reason.as_str());
            Report { text, error: true }
        },
        SaveOutcome::NotCreated(reason) => {
            let mut text = "Failed to create file for saving engine config: ".to_owned();
            text.append(reason.as_str());
            Report { text, error: true }
        },
    }
}

/// Reports that a dialog was left without choosing a file.
pub fn cancel_report(purpose: Purpose) -> (r: Report)
    ensures
        r.text@ == cancel_report_text(purpose),
        !r.error,
{
    let text = match purpose {
        Purpose::SaveRecording => "Aborted recording",
        Purpose::SaveConfig => "Cancelled saving",
        Purpose::LoadConfig => "Cancelled file loading dialog",
    };
    Report { text: text.to_owned(), error: false }
}

/// The kinds of file that the dialog for `purpose` offers: description and extensions of each.
pub open spec fn filter_table(purpose: Purpose) -> Seq<(&'static str, Seq<&'static str>)> {
    match purpose {
        Purpose::SaveRecording => seq![("MONO Wave Audio file", seq!["wav"])],
        Purpose::LoadConfig => seq![
            ("Engine sound configuration files", seq!["esc", "es"]),
            ("All files", seq!["*"]),
        ],
        Purpose::SaveConfig => seq![
            ("Engine sound RON file", seq!["esc", "ron"]),
            ("Engine sound JSON file", seq!["json"]),
        ],
    }
}

/// The kinds of file that the dialog for `purpose` offers.
pub fn filters(purpose: Purpose) -> (r: Vec<Filter>)
    ensures
        r@.len() == filter_table(purpose).len(),
        forall|i: int|
            0 <= i < r@.len() ==> (#[trigger] r@[i]).description == filter_table(purpose)[i].0
                && r@[i].extensions@ == filter_table(purpose)[i].1,
{
    match purpose {
        Purpose::SaveRecording => vec![
            Filter { description: "MONO Wave Audio file", extensions: vec!["wav"] },
        ],
        Purpose::LoadConfig => vec![
            Filter {
                description: "Engine sound configuration files",
                extensions: vec!["esc", "es"],
            },
            Filter { description: "All files", extensions: vec!["*"] },
        ],
        Purpose::SaveConfig => vec![
            Filter { description: "Engine sound RON file", extensions: vec!["esc", "ron"] },
            Filter { description: "Engine sound JSON file", extensions: vec!["json"] },
        ],
    }
}

/// `i` is the last attempt of `loads` that succeeded.
pub open spec fn last_success<E>(loads: Seq<Result<E, String>>, i: int) -> bool {
    &&& 0 <= i < loads.len()
    &&& loads[i] is Ok
    &&& forall|j: int| i < j < loads.len() ==> #[trigger] loads[j] is Err
}

/// Where several configurations are loaded one after the other, the last one that could be loaded
/// is the engine, and where none could be, the engine stays. Nothing else changes.
pub proof fn law_the_last_load_that_succeeds_wins<V, L, F, R>(
    generator: Generator<V, L, F, R>,
    loads: Seq<Result<Engine<V, L, F>, String>>,
)
    ensures
        forall|i: int| #[trigger]
            last_success(loads, i) ==> after_loads(generator, loads) == (Generator {
                engine: loads[i]->Ok_0,
                ..generator
            }),
        (forall|i: int| 0 <= i < loads.len() ==> #[trigger] loads[i] is Err) ==> after_loads(
            generator,
            loads,
        ) == generator,
    decreases loads.len(),
{
    if loads.len() > 0 {
        let before = loads.drop_last();
        law_the_last_load_that_succeeds_wins(generator, before);
        assert forall|i: int| #[trigger] last_success(loads, i) implies after_loads(
            generator,
            loads,
        ) == (Generator { engine: loads[i]->Ok_0, ..generator }) by {
            if i < before.len() {
                assert(loads.last() is Err) by {
                    assert(loads[loads.len() - 1] is Err);
                }
                assert(last_success(before, i));
            } else {
                lemma_only_the_engine_changes(generator, before);
            }
        }
    }
}

proof fn lemma_only_the_engine_changes<V, L, F, R>(
    generator: Generator<V, L, F, R>,
    loads: Seq<Result<Engine<V, L, F>, String>>,
)
    ensures
        after_loads(generator, loads) == (Generator {
            engine: after_loads(generator, loads).engine,
            ..generator
        }),
    decreases loads.len(),
{
    if loads.len() > 0 {
        lemma_only_the_engine_changes(generator, loads.drop_last());
    }
}

/// A file is read as JSON exactly where its path is something followed by "json". So a path that
/// ends in "esc", "es" or "ron" is read as RON. The path and the sample rate are asked for as they
/// are.
pub proof fn law_json_is_read_where_the_path_ends_in_json(
    path: String,
    sample_rate: u32,
    r: LoadRequest,
)
    requires
        call_ensures(load_request, (path, sample_rate), r),
    ensures
        r.path == path,
        r.sample_rate == sample_rate,
        r.json <==> exists|stem: Seq<char>| path@ == #[trigger] (stem + "json"@),
        forall|stem: Seq<char>| path@ == #[trigger] (stem + "esc"@) ==> !r.json,
        forall|stem: Seq<char>| path@ == #[trigger] (stem + "ron"@) ==> !r.json,
        forall|stem: Seq<char>| path@ == #[trigger] (stem + "es"@) ==> !r.json,
{
    reveal_strlit("json");
    reveal_strlit("esc");
    reveal_strlit("ron");
    reveal_strlit("es");
    let text = path@;
    let n = text.len();
    let json = "json"@;
    if r.json {
        let stem = text.take(n - 4);
        assert(text =~= stem + text.subrange(n - 4, n as int));
        assert(text == stem + json);
    }
    assert forall|stem: Seq<char>| path@ == #[trigger] (stem + json) implies r.json by {
        assert(text.subrange(n - 4, n as int) =~= json);
    }
    assert forall|stem: Seq<char>| path@ == #[trigger] (stem + "esc"@) implies !r.json
        by {
        if r.json {
            assert(text[n - 1] == text.subrange(n - 4, n as int)[3]);
        }
    }
    assert forall|stem: Seq<char>| path@ == #[trigger] (stem + "ron"@) implies !r.json
        by {
        if r.json {
            assert(text[n - 3] == text.subrange(n - 4, n as int)[1]);
        }
    }
    assert forall|stem: Seq<char>| path@ == #[trigger] (stem + "es"@) implies !r.json by {
        if r.json {
            assert(text[n - 1] == text.subrange(n - 4, n as int)[3]);
        }
    }
}

/// A text ends in "json" exactly where it is something followed by "json".
pub proof fn law_json_is_told_by_the_end(text: &str, r: bool)
    requires
        call_ensures(is_json, (text,), r),
    ensures
        r <==> exists|stem: Seq<char>| text@ == #[trigger] (stem + "json"@),
{
    reveal_strlit("json");
    let n = text@.len();
    let json = "json"@;
    if r {
        let stem = text@.take(n - 4);
        assert(text@ =~= stem + text@.subrange(n - 4, n as int));
        assert(text@ == stem + json);
    }
    assert forall|stem: Seq<char>| text@ == #[trigger] (stem + json) implies r by {
        assert(text@.subrange(n - 4, n as int) =~= json);
    }
}

/// A configuration that was saved is asked for in the format it was saved in: JSON under the
/// extension "json", RON under any other that does not end in "json", and under none. `stem` is the
/// path up to the extension with its dot.
pub proof fn law_saved_configurations_are_read_in_their_format(
    stem: Seq<char>,
    extension: &str,
    path: String,
    sample_rate: u32,
    format: ConfigFormat,
    r: LoadRequest,
)
    requires
        path@ == stem + seq!['.'] + extension@,
        call_ensures(save_format, (Some(extension),), format),
        call_ensures(load_request, (path, sample_rate), r),
        extension@ == "json"@ || forall|lead: Seq<char>|
            extension@ != #[trigger] (lead + "json"@),
    ensures
        extension@ == "json"@ ==> format == ConfigFormat::Json,
        extension@ != "json"@ ==> format == ConfigFormat::Ron,
        r.json == (format == ConfigFormat::Json),
{
    reveal_strlit("json");
    let json = "json"@;
    let (text, e) = (path@, extension@);
    let n = text.len();
    law_json_is_read_where_the_path_ends_in_json(path, sample_rate, r);
    if e == json {
        assert(text == (stem + seq!['.']) + json);
    } else if r.json {
        let end = text.subrange(n - 4, n as int);
        assert(end =~= json);
        assert(end[0] == 'j' && end[1] == 's' && end[2] == 'o' && end[3] == 'n');
        if e.len() >= 4 {
            let lead = e.take(e.len() - 4);
            assert(e =~= lead + json) by {
                assert forall|i: int| e.len() - 4 <= i < e.len() implies e[i] == json[i - (e.len()
                    - 4)] by {
                    assert(e[i] == text[stem.len() + 1 + i]);
                    assert(text[stem.len() + 1 + i] == end[i - (e.len() - 4)]);
                }
            }
        } else {
            let dot = stem.len() as int;
            assert(text[dot] == '.');
            assert(end[dot - (n - 4)] == '.');
        }
    }
}

/// A file without an extension is written as RON.
pub proof fn law_no_extension_means_ron(format: ConfigFormat)
    requires
        call_ensures(save_format, (None,), format),
    ensures
        format == ConfigFormat::Ron,
{
}

/// What is reported of loading names the path in double quotes, and the reason where it failed.
/// Exactly a failure is an error.
pub proof fn law_load_reports_name_the_path<V, L, F, R>(
    generator: &mut Generator<V, L, F, R>,
    path: &str,
    loaded: Result<Engine<V, L, F>, String>,
    r: Report,
)
    requires
        call_ensures(finish_load::<V, L, F, R>, (generator, path, loaded), r),
    ensures
        r.error == (loaded is Err),
        loaded is Ok ==> r.text@ == "Successfully loaded engine config \""@ + path@ + seq!['"'],
        loaded matches Err(reason) ==> r.text@ == "Failed to load engine config \""@ + path@ + seq![
            '"',
            ':',
            ' ',
        ] + reason@,
{
    let path = path@;
    reveal_strlit("\"");
    reveal_strlit(": ");
    assert("\""@ =~= seq!['"']);
    assert(": "@ =~= seq![':', ' ']);
    if let Err(reason) = loaded {
        let lead = "Failed to load engine config \""@;
        assert(lead + path + seq!['"'] + seq![':', ' '] + reason@ =~= lead + path + seq![
            '"',
            ':',
            ' ',
        ] + reason@);
    }
}

/// What is reported of saving names the path in double quotes where it succeeded, and else the
/// reason. Only a success is no error.
pub proof fn law_save_reports_name_the_path_or_the_reason(
    path: &str,
    outcome: &SaveOutcome,
    r: Report,
)
    requires
        call_ensures(save_report, (path, outcome), r),
    ensures
        match *outcome {
            SaveOutcome::Saved => !r.error && r.text@ == "Successfully saved engine config \""@
                + path@ + seq!['"'],
            SaveOutcome::NotSerialized(why) => r.error && r.text@
                == "Failed to save engine config: "@ + why@,
            SaveOutcome::NotCreated(why) => r.error && r.text@
                == "Failed to create file for saving engine config: "@ + why@,
        },
{
    reveal_strlit("\"");
    assert("\""@ =~= seq!['"']);
}

/// What is reported of a dialog that was left tells which one it was, and is no error.
pub proof fn law_cancel_reports_tell_the_dialog(purpose: Purpose, r: Report)
    requires
        call_ensures(cancel_report, (purpose,), r),
    ensures
        !r.error,
        purpose == Purpose::SaveRecording ==> r.text@ == "Aborted recording"@,
        purpose == Purpose::SaveConfig ==> r.text@ == "Cancelled saving"@,
        purpose == Purpose::LoadConfig ==> r.text@ == "Cancelled file loading dialog"@,
{
}

/// The dialogs offer the files that belong to them: recordings are saved as "wav", configurations
/// as "esc" or "ron" or, apart from these, as "json", and they are loaded from "esc", "es" or any
/// file.
pub proof fn law_dialogs_offer_their_files(purpose: Purpose, r: Vec<Filter>)
    requires
        call_ensures(filters, (purpose,), r),
    ensures
        match purpose {
            Purpose::SaveRecording => {
                &&& r@.len() == 1
                &&& r@[0].description == "MONO Wave Audio file"
                &&& r@[0].extensions@ == seq!["wav"]
            },
            Purpose::SaveConfig => {
                &&& r@.len() == 2
                &&& r@[0].description == "Engine sound RON file"
                &&& r@[0].extensions@ == seq!["esc", "ron"]
                &&& r@[1].description == "Engine sound JSON file"
                &&& r@[1].extensions@ == seq!["json"]
            },
            Purpose::LoadConfig => {
                &&& r@.len() == 2
                &&& r@[0].description == "Engine sound configuration files"
                &&& r@[0].extensions@ == seq!["esc", "es"]
                &&& r@[1].description == "All files"
                &&& r@[1].extensions@ == seq!["*"]
            },
        },
{
    let (a, b) = (r@[0], r@[1]);
}

/// An engine that was loaded takes the place of the one before, and nothing else changes. Where
/// none was loaded, nothing changes.
pub proof fn law_loading_replaces_the_engine_only<V, L, F, R>(
    generator: &mut Generator<V, L, F, R>,
    path: &str,
    loaded: Result<Engine<V, L, F>, String>,
    r: Report,
)
    requires
        call_ensures(finish_load::<V, L, F, R>, (generator, path, loaded), r),
    ensures
        ({
            let (before, after) = (*old(generator), *final(generator));
            &&& loaded is Ok ==> after.engine == loaded->Ok_0
            &&& loaded is Err ==> after.engine == before.engine
            &&& after.volume == before.volume
            &&& after.samples_per_second == before.samples_per_second
            &&& after.recorder == before.recorder
            &&& after.recording_currently_clipping == before.recording_currently_clipping
            &&& after.waveguides_dampened == before.waveguides_dampened
        }),
{
}

}
