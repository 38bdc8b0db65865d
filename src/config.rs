//! The typed configuration of a server: where its file is found, the sink it
//! renders to, its slots and separator, and the producers that refresh them.

use vstd::prelude::*;

use crate::cache::{Cache, CacheModel};
use crate::text::{same_text, split_words, views, words};

verus! {

/// Why a configuration could not be had.
#[derive(Debug, PartialEq, Eq)]
pub enum CliParseError {
    /// No home directory is known.
    Home,
    /// The file could not be read, or a producer names no command.
    ConfigFile,
    /// The file is not a TOML table, or an interval is negative.
    TomlParseError,
}

/// Where each status line goes.
#[derive(Debug, Clone, Copy, PartialEq, Eq)]
pub enum OutputFormat {
    /// Into the name of the root window.
    XSetRoot,
    /// To standard output, one line each.
    Newline,
}

/// The sink that `maybe_output` selects: the root window for `"xsetroot"`,
/// standard output for anything else or nothing.
pub open spec fn output_of(maybe_output: Option<Seq<char>>) -> OutputFormat {
    match maybe_output {
        Some(v) => if v == "xsetroot"@ {
            OutputFormat::XSetRoot
        } else {
            OutputFormat::Newline
        },
        None => OutputFormat::Newline,
    }
}

/// The sink that the command line's output option selects.
pub fn get_output(maybe_output: Option<&str>) -> (r: OutputFormat)
    ensures
        r == output_of(
            match maybe_output {
                Some(v) => Some(v@),
                None => None,
            },
        ),
{
    match maybe_output {
        Some(val) => {
            if same_text(val, "xsetroot") {
                OutputFormat::XSetRoot
            } else {
                OutputFormat::Newline
            }
        },
        None => OutputFormat::Newline,
    }
}

/// The path of the default configuration file under the home directory
/// `home`, joined as `PathBuf::push` joins: with a `'/'` unless `home` is
/// empty or already ends in one.
pub open spec fn home_config_path(home: Seq<char>) -> Seq<char> {
    let sep: Seq<char> = if home.len() == 0 || home.last() == '/' {
        Seq::empty()
    } else {
        seq!['/']
    };
    home + sep + ".config/polyblocks/Config.toml"@
}

/// Where the configuration file is: the path given on the command line,
/// else the one in the environment, else the default under the home
/// directory. A missing home directory is an error in every case.
pub fn get_config_path(
    maybe_cli_str: Option<&str>,
    env_var: Option<String>,
    home: Option<String>,
) -> (r: Result<String, CliParseError>)
    ensures
        home is None ==> r == Err::<String, CliParseError>(CliParseError::Home),
        home matches Some(h) ==> (r matches Ok(p) && p@ == match maybe_cli_str {
            Some(c) => c@,
            None => match env_var {
                Some(e) => e@,
                None => home_config_path(h@),
            },
        }),
{
    let home = match home {
        Some(h) => h,
        None => return Err(CliParseError::Home),
    };
    match maybe_cli_str {
        Some(path) => Ok(path.to_owned()),
        None => match env_var {
            Some(path) => Ok(path),
            None => {
                let mut path = home.clone();
                let n = home.as_str().unicode_len();
                if n > 0 && home.as_str().get_char(n - 1) != '/' {
                    path.append("/");
                }
                path.append(".config/polyblocks/Config.toml");
                proof {
                    reveal_strlit("/");
                    reveal_strlit(".config/polyblocks/Config.toml");
                    if n > 0 && home@.last() != '/' {
                        assert(path@ =~= home_config_path(home@));
                    } else {
                        assert(path@ =~= home_config_path(home@));
                    }
                }
                Ok(path)
            },
        },
    }
}

/// Seconds in a configured interval, which must not be negative.
pub fn parse_duration(duration: i64) -> (r: Result<u64, CliParseError>)
    ensures
        duration < 0 ==> r == Err::<u64, CliParseError>(CliParseError::TomlParseError),
        duration >= 0 ==> r == Ok::<u64, CliParseError>(duration as u64),
{
    if duration < 0 {
        Err(CliParseError::TomlParseError)
    } else {
        Ok(duration as u64)
    }
}

/// A command line: a program and its arguments.
#[derive(Debug, Clone)]
pub struct Command {
    pub program: String,
    pub args: Vec<String>,
}

/// Splits `script` at white space into a program and its arguments; a
/// script with no word names no program.
pub fn parse_command(script: &str) -> (r: Result<Command, CliParseError>)
    ensures
        words(script@).len() == 0 ==> r == Err::<Command, CliParseError>(CliParseError::ConfigFile),
        words(script@).len() > 0 ==> (r matches Ok(c) && c.program@ == words(script@)[0] && views(
            c.args@,
        ) == words(script@).drop_first()),
{
    let mut parts = split_words(script);
    if parts.len() == 0 {
        return Err(CliParseError::ConfigFile);
    }
    let ghost all = views(parts@);
    let program = parts.remove(0);
    proof {
        assert(views(parts@) =~= all.drop_first());
    }
    Ok(Command { program, args: parts })
}

/// A producer: a command and how often it runs.
#[derive(Debug, Clone)]
pub struct Block {
    pub script: Command,
    /// Seconds between runs; zero runs it once only.
    pub interval_secs: u64,
}

/// The abstract form of a [`Block`].
pub struct BlockModel {
    pub program: Seq<char>,
    pub args: Seq<Seq<char>>,
    pub interval_secs: u64,
}

impl View for Block {
    type V = BlockModel;

    open spec fn view(&self) -> BlockModel {
        BlockModel {
            program: self.script.program@,
            args: views(self.script.args@),
            interval_secs: self.interval_secs,
        }
    }
}

/// A setting of a configuration section, as far as the configuration reads it.
#[derive(Debug, Clone)]
pub enum Field {
    Text(String),
    Integer(i64),
    /// Absent, or of another kind.
    Missing,
}

/// The abstract form of a [`Field`].
pub enum FieldModel {
    Text(Seq<char>),
    Integer(i64),
    Missing,
}

impl View for Field {
    type V = FieldModel;

    open spec fn view(&self) -> FieldModel {
        match self {
            Field::Text(t) => FieldModel::Text(t@),
            Field::Integer(i) => FieldModel::Integer(*i),
            Field::Missing => FieldModel::Missing,
        }
    }
}

/// A top-level section of a configuration, with the settings it may hold.
#[derive(Debug, Clone)]
pub struct Section {
    pub name: String,
    pub separator: Field,
    pub script: Field,
    pub interval: Field,
}

/// The abstract form of a [`Section`].
pub struct SectionModel {
    pub name: Seq<char>,
    pub separator: FieldModel,
    pub script: FieldModel,
    pub interval: FieldModel,
}

impl View for Section {
    type V = SectionModel;

    open spec fn view(&self) -> SectionModel {
        SectionModel {
            name: self.name@,
            separator: self.separator@,
            script: self.script@,
            interval: self.interval@,
        }
    }
}

/// What a configuration declares: the separator, the slot names in order
/// (repeats included), and the producers.
pub struct ConfigModel {
    pub separator: Seq<char>,
    pub names: Seq<Seq<char>>,
    pub blocks: Seq<BlockModel>,
}

/// The section that holds global settings rather than a slot.
pub open spec fn global_name() -> Seq<char> {
    "global"@
}

/// `c` with `section` read too. The global section may add to the
/// separator; any other declares a slot, and a producer when it has a
/// textual script and an integer interval.
pub open spec fn config_step(c: ConfigModel, section: SectionModel) -> Result<
    ConfigModel,
    CliParseError,
> {
    if section.name == global_name() {
        match section.separator {
            FieldModel::Text(t) => Ok(ConfigModel { separator: c.separator + t, ..c }),
            _ => Ok(c),
        }
    } else {
        let named = ConfigModel { names: c.names.push(section.name), ..c };
        match (section.script, section.interval) {
            (FieldModel::Text(script), FieldModel::Integer(interval)) => {
                let w = words(script);
                if w.len() == 0 {
                    Err(CliParseError::ConfigFile)
                } else if interval < 0 {
                    Err(CliParseError::TomlParseError)
                } else {
                    Ok(
                        ConfigModel {
                            blocks: named.blocks.push(
                                BlockModel {
                                    program: w[0],
                                    args: w.drop_first(),
                                    interval_secs: interval as u64,
                                },
                            ),
                            ..named
                        },
                    )
                }
            },
            _ => Ok(named),
        }
    }
}

/// What `sections` configure, read in order; the first error stops it.
pub open spec fn config_of(sections: Seq<SectionModel>) -> Result<ConfigModel, CliParseError>
    decreases sections.len(),
{
    if sections.len() == 0 {
        Ok(ConfigModel { separator: Seq::empty(), names: Seq::empty(), blocks: Seq::empty() })
    } else {
        match config_of(sections.drop_last()) {
            Err(e) => Err(e),
            Ok(c) => config_step(c, sections.last()),
        }
    }
}

/// Once a prefix of the sections fails, the whole fails the same way.
proof fn lemma_error_persists(s: Seq<SectionModel>, k: int)
    requires
        0 <= k <= s.len(),
        config_of(s.take(k)) is Err,
    ensures
        config_of(s) == config_of(s.take(k)),
    decreases s.len() - k,
{
    if k < s.len() {
        assert(s.take(k + 1).drop_last() =~= s.take(k));
        lemma_error_persists(s, k + 1);
    } else {
        assert(s.take(k) =~= s);
    }
}

/// Whether `r` holds the cache and producers that `m` configures, or its error.
pub open spec fn config_matches(
    r: Result<(Cache, Vec<Block>), CliParseError>,
    m: Result<ConfigModel, CliParseError>,
) -> bool {
    match m {
        Err(e) => r == Err::<(Cache, Vec<Block>), CliParseError>(e),
        Ok(c) => (r matches Ok((cache, blocks)) && cache.wf() && cache@ == CacheModel::fresh(
            c.separator,
            c.names,
        ) && blocks@.map_values(|b: Block| b@) == c.blocks),
    }
}

/// The views of a sequence of sections.
pub open spec fn section_views(s: Seq<Section>) -> Seq<SectionModel> {
    s.map_values(|x: Section| x@)
}

/// Builds the cache and the producers that `sections` configure.
pub fn config_from_sections(sections: &Vec<Section>) -> (r: Result<(Cache, Vec<Block>), CliParseError>)
    ensures
        config_matches(r, config_of(section_views(sections@))),
{
    let ghost all = section_views(sections@);
    let mut separator = String::new();
    let mut names: Vec<String> = Vec::new();
    let mut blocks: Vec<Block> = Vec::new();
    let mut i: usize = 0;
    proof {
        assert(all.take(0) =~= Seq::<SectionModel>::empty());
        assert(views(names@) =~= Seq::<Seq<char>>::empty());
        assert(blocks@.map_values(|b: Block| b@) =~= Seq::<BlockModel>::empty());
        reveal_strlit("");
    }
    while i < sections.len()
        invariant
            i <= sections.len(),
            all == section_views(sections@),
            config_of(all.take(i as int)) == Ok::<ConfigModel, CliParseError>(
                ConfigModel {
                    separator: separator@,
                    names: views(names@),
                    blocks: blocks@.map_values(|b: Block| b@),
                },
            ),
        decreases sections.len() - i,
    {
        let section = &sections[i];
        proof {
            assert(all.take(i + 1).drop_last() =~= all.take(i as int));
            assert(all.take(i + 1).last() == section@);
        }
        let ghost before = ConfigModel {
            separator: separator@,
            names: views(names@),
            blocks: blocks@.map_values(|b: Block| b@),
        };
        let is_global = same_text(section.name.as_str(), "global");
        proof {
            reveal_strlit("global");
        }
        if is_global {
            match &section.separator {
                Field::Text(t) => {
                    separator.append(t.as_str());
                },
                _ => {},
            }
        } else {
            let ghost names_before = views(names@);
            names.push(section.name.clone());
            proof {
                assert(views(names@) =~= names_before.push(section.name@));
            }
            match (&section.script, &section.interval) {
                (Field::Text(script), Field::Integer(interval)) => {
                    let command = match parse_command(script.as_str()) {
                        Ok(c) => c,
                        Err(e) => {
                            proof {
                                lemma_error_persists(all, i + 1);
                            }
                            return Err(e);
                        },
                    };
                    let interval_secs = match parse_duration(*interval) {
                        Ok(d) => d,
                        Err(e) => {
                            proof {
                                lemma_error_persists(all, i + 1);
                            }
                            return Err(e);
                        },
                    };
                    let ghost blocks_before = blocks@.map_values(|b: Block| b@);
                    let block = Block { script: command, interval_secs };
                    blocks.push(block);
                    proof {
                        assert(blocks@.map_values(|b: Block| b@) =~= blocks_before.push(block@));
                    }
                },
                _ => {},
            }
        }
        i = i + 1;
    }
    proof {
        assert(all.take(sections.len() as int) =~= all);
    }
    Ok((Cache::new(separator, names), blocks))
}

/// A top-level entry of a TOML document: its key, and the string and integer
/// settings of its value where that value is itself a table.
#[derive(Debug, Clone)]
pub struct TomlTable {
    pub name: String,
    /// The entries of the value, in the table's order; empty when the value
    /// is no table. Settings of other kinds read as `Field::Missing`.
    pub entries: Vec<(String, Field)>,
}

/// The abstract form of a [`TomlTable`].
pub struct TomlTableModel {
    pub name: Seq<char>,
    pub entries: Seq<(Seq<char>, FieldModel)>,
}

impl View for TomlTable {
    type V = TomlTableModel;

    open spec fn view(&self) -> TomlTableModel {
        TomlTableModel {
            name: self.name@,
            entries: self.entries@.map_values(|e: (String, Field)| (e.0@, e.1@)),
        }
    }
}

/// The top-level entries of the TOML document `text`, as `toml::from_str`
/// reads it, if `text` is a TOML document whose top level is a table.
pub uninterp spec fn toml_tables_of(text: Seq<char>) -> Option<Seq<TomlTableModel>>;

/// Relies on `toml::from_str` and `toml::Value::as_table`: the document that
/// `text` holds, its top level and each entry's value read as tables, in
/// the tables' order, which depends on `text` alone.
#[verifier::external_body]
fn toml_tables(text: &str) -> (r: Option<Vec<TomlTable>>)
    ensures
        match toml_tables_of(text@) {
            None => r is None,
            Some(t) => (r matches Some(v) && v@.map_values(|x: TomlTable| x@) == t),
        },
{
    let doc: toml::Value = toml::from_str(text).ok()?;
    let field = |v: &toml::Value| match v {
        toml::Value::String(t) => Field::Text(t.clone()),
        toml::Value::Integer(i) => Field::Integer(*i),
        _ => Field::Missing,
    };
    let entries = |v: &toml::Value| match v.as_table() {
        Some(t) => t.iter().map(|(k, x)| (k.clone(), field(x))).collect(),
        None => Vec::new(),
    };
    Some(doc.as_table()?.iter().map(|(k, v)| TomlTable { name: k.clone(), entries: entries(v) }).collect())
}

/// The setting `key` among `entries`: that of the first entry with that key,
/// or `Missing` when there is none.
pub open spec fn field_lookup(entries: Seq<(Seq<char>, FieldModel)>, key: Seq<char>) -> FieldModel
    decreases entries.len(),
{
    if entries.len() == 0 {
        FieldModel::Missing
    } else if entries[0].0 == key {
        entries[0].1
    } else {
        field_lookup(entries.drop_first(), key)
    }
}

/// The section that a top-level entry describes.
pub open spec fn section_of_table(t: TomlTableModel) -> SectionModel {
    SectionModel {
        name: t.name,
        separator: field_lookup(t.entries, "separator"@),
        script: field_lookup(t.entries, "script"@),
        interval: field_lookup(t.entries, "interval"@),
    }
}

/// The setting `key` among `entries`.
fn lookup_field(entries: &Vec<(String, Field)>, key: &str) -> (r: Field)
    ensures
        r@ == field_lookup(entries@.map_values(|e: (String, Field)| (e.0@, e.1@)), key@),
{
    let ghost all = entries@.map_values(|e: (String, Field)| (e.0@, e.1@));
    let mut i: usize = 0;
    proof {
        assert(all.skip(0) =~= all);
    }
    while i < entries.len()
        invariant
            i <= entries.len(),
            all == entries@.map_values(|e: (String, Field)| (e.0@, e.1@)),
            field_lookup(all.skip(i as int), key@) == field_lookup(all, key@),
        decreases entries.len() - i,
    {
        proof {
            assert(all.skip(i as int).drop_first() =~= all.skip(i + 1));
            assert(all.skip(i as int)[0] == all[i as int]);
        }
        if same_text(entries[i].0.as_str(), key) {
            return match &entries[i].1 {
                Field::Text(t) => Field::Text(t.clone()),
                Field::Integer(n) => Field::Integer(*n),
                Field::Missing => Field::Missing,
            };
        }
        i = i + 1;
    }
    proof {
        assert(all.skip(i as int) =~= Seq::<(Seq<char>, FieldModel)>::empty());
    }
    Field::Missing
}

/// The section that the top-level entry `t` describes.
pub fn section_from_table(t: &TomlTable) -> (r: Section)
    ensures
        r@ == section_of_table(t@),
{
    let r = Section {
        name: t.name.clone(),
        separator: lookup_field(&t.entries, "separator"),
        script: lookup_field(&t.entries, "script"),
        interval: lookup_field(&t.entries, "interval"),
    };
    proof {
        reveal_strlit("separator");
        reveal_strlit("script");
        reveal_strlit("interval");
    }
    r
}

/// What the configuration text `text` gives: `None` when it is no TOML
/// table, else what its sections configure.
pub open spec fn config_of_text(text: Seq<char>) -> Option<Result<ConfigModel, CliParseError>> {
    match toml_tables_of(text) {
        None => None,
        Some(t) => Some(config_of(t.map_values(|x: TomlTableModel| section_of_table(x)))),
    }
}

/// Reads a configuration file's text: a TOML table whose entries are the
/// sections, each read for a separator, a script and an interval. Text that
/// is no TOML table fails; otherwise the result is what its sections
/// configure.
pub fn parse_config_toml(text: &str) -> (r: Result<(Cache, Vec<Block>), CliParseError>)
    ensures
        match config_of_text(text@) {
            None => r == Err::<(Cache, Vec<Block>), CliParseError>(CliParseError::TomlParseError),
            Some(m) => config_matches(r, m),
        },
{
    let tables = match toml_tables(text) {
        Some(t) => t,
        None => return Err(CliParseError::TomlParseError),
    };
    let ghost all = tables@.map_values(|x: TomlTable| x@);
    let mut sections: Vec<Section> = Vec::new();
    let mut i: usize = 0;
    while i < tables.len()
        invariant
            i <= tables.len(),
            all == tables@.map_values(|x: TomlTable| x@),
            section_views(sections@) == all.take(i as int).map_values(
                |x: TomlTableModel| section_of_table(x),
            ),
        decreases tables.len() - i,
    {
        let ghost before = section_views(sections@);
        let section = section_from_table(&tables[i]);
        sections.push(section);
        proof {
            assert(all[i as int] == tables@[i as int]@);
            assert(section_views(sections@) =~= before.push(section@));
            assert(section_views(sections@) =~= all.take(i + 1).map_values(
                |x: TomlTableModel| section_of_table(x),
            ));
        }
        i = i + 1;
    }
    proof {
        assert(all.take(tables.len() as int) =~= all);
    }
    config_from_sections(&sections)
}

/// What a server starts from.
pub struct ServerInput {
    /// Tells apart servers that run side by side.
    pub server_id: String,
    /// The slots, all unset.
    pub cache: Cache,
    /// Where status lines go.
    pub output_format: OutputFormat,
}

/// A server's input and the producers that refresh its slots.
pub struct InputData {
    pub server: ServerInput,
    pub blocks: Vec<Block>,
}

/// The input of server `server_id`, rendering to `output_format`, from the
/// text of its configuration file: it fails as `parse_config_toml` fails,
/// and otherwise holds the configured slots, all unset, and producers.
pub fn get_server_input(server_id: String, config_text: &str, output_format: OutputFormat) -> (r:
    Result<InputData, CliParseError>)
    ensures
        match config_of_text(config_text@) {
            None => r == Err::<InputData, CliParseError>(CliParseError::TomlParseError),
            Some(Err(e)) => r == Err::<InputData, CliParseError>(e),
            Some(Ok(c)) => (r matches Ok(d) && d.server.server_id == server_id
                && d.server.output_format == output_format && d.server.cache.wf()
                && d.server.cache@ == CacheModel::fresh(c.separator, c.names)
                && d.blocks@.map_values(|b: Block| b@) == c.blocks),
        },
{
    match parse_config_toml(config_text) {
        Ok((cache, blocks)) => Ok(
            InputData { server: ServerInput { server_id, cache, output_format }, blocks },
        ),
        Err(e) => Err(e),
    }
}

} // verus!
