//! The driver's launch arguments.
use vstd::prelude::*;

use super::error::{
    invalid, invalid_about, invalid_data, DriverError, ErrorKind, FaultModel,
};
use crate::json::text_view;
use crate::text::{
    byte_len, contains_control, has_control, is_control_char, text_eq, utf8_len,
};

verus! {

/// The most bytes of a prompt, of a reply that is kept, and of an initial prompt.
pub const MAX_TEXT: usize = 131072;

/// How the driver is to be launched.
#[derive(Debug, PartialEq, Eq)]
pub struct Options {
    pub binary: String,
    pub catalog: bool,
    pub resume: Option<String>,
    pub journal: Option<String>,
    pub initial: Option<String>,
    pub model: Option<String>,
    pub effort: Option<String>,
}

/// The content of `Options`.
pub struct OptionsModel {
    pub binary: Seq<char>,
    pub catalog: bool,
    pub resume: Option<Seq<char>>,
    pub journal: Option<Seq<char>>,
    pub initial: Option<Seq<char>>,
    pub model: Option<Seq<char>>,
    pub effort: Option<Seq<char>>,
}

impl View for Options {
    type V = OptionsModel;

    open spec fn view(&self) -> OptionsModel {
        OptionsModel {
            binary: self.binary@,
            catalog: self.catalog,
            resume: text_view(self.resume),
            journal: text_view(self.journal),
            initial: text_view(self.initial),
            model: text_view(self.model),
            effort: text_view(self.effort),
        }
    }
}

/// The options before any argument is read.
pub open spec fn default_options() -> OptionsModel {
    OptionsModel {
        binary: "dsh"@,
        catalog: false,
        resume: None,
        journal: None,
        initial: None,
        model: None,
        effort: None,
    }
}

/// The options with one of them set, if there is one of that name.
pub open spec fn with_option(
    options: OptionsModel,
    key: Seq<char>,
    value: Seq<char>,
) -> Option<OptionsModel> {
    if key == "--dsh-bin"@ {
        Some(OptionsModel { binary: value, ..options })
    } else if key == "--resume"@ {
        Some(OptionsModel { resume: Some(value), ..options })
    } else if key == "--journal"@ {
        Some(OptionsModel { journal: Some(value), ..options })
    } else if key == "--initial-prompt"@ {
        Some(OptionsModel { initial: Some(value), ..options })
    } else if key == "--model"@ {
        Some(OptionsModel { model: Some(value), ..options })
    } else if key == "--effort"@ {
        Some(OptionsModel { effort: Some(value), ..options })
    } else {
        None
    }
}

/// What arguments say, read from the first on: a flag, or a key with its value, at a time.
pub open spec fn collected(args: Seq<String>, options: OptionsModel) -> Result<
    OptionsModel,
    FaultModel,
>
    decreases args.len(),
{
    if args.len() == 0 {
        Ok(options)
    } else if args[0]@ == "--catalog"@ {
        collected(args.skip(1), OptionsModel { catalog: true, ..options })
    } else if args.len() == 1 {
        Err(invalid_data("missing value for "@ + args[0]@))
    } else if args[1]@.len() == 0 || has_control(args[1]@) {
        Err(invalid_data("empty or control-character launch argument"@))
    } else {
        match with_option(options, args[0]@, args[1]@) {
            Some(more) => collected(args.skip(2), more),
            None => Err(invalid_data("unknown DSH driver option: "@ + args[0]@)),
        }
    }
}

/// Options that do not go together, or are out of bounds, are refused.
pub open spec fn checked(options: OptionsModel, journal_is_absolute: bool) -> Result<
    OptionsModel,
    FaultModel,
> {
    if options.catalog && (options.resume is Some || options.initial is Some || options.journal is Some) {
        Err(invalid_data("catalog inspection cannot resume, prompt, or write a journal"@))
    } else if options.resume is Some && options.initial is Some {
        Err(invalid_data("resume never replays an initializer"@))
    } else if options.initial matches Some(initial) && utf8_len(initial) > MAX_TEXT {
        Err(invalid_data("initializer exceeds 128 KiB"@))
    } else if options.journal is Some && !journal_is_absolute {
        Err(invalid_data("journal must be an absolute path"@))
    } else {
        Ok(options)
    }
}

/// What is read from arguments, by whether the journal that they name is an absolute path.
pub open spec fn parsed(args: Seq<String>, journal_is_absolute: bool) -> Result<
    OptionsModel,
    FaultModel,
> {
    match collected(args, default_options()) {
        Ok(options) => checked(options, journal_is_absolute),
        Err(fault) => Err(fault),
    }
}

/// What a result stands for.
pub open spec fn parse_view(result: Result<Options, DriverError>) -> Result<
    OptionsModel,
    FaultModel,
> {
    match result {
        Ok(options) => Ok(options@),
        Err(error) => Err(error@),
    }
}

/// A character that separates the parts of a path.
pub open spec fn is_separator(c: char) -> bool {
    c == '/' || c == '\\'
}

/// A path that starts at a root: it begins with a separator, or with a drive and a separator.
pub open spec fn is_rooted(path: Seq<char>) -> bool {
    ||| path.len() >= 1 && is_separator(path[0])
    ||| path.len() >= 3 && path[1] == ':' && is_separator(path[2])
}

/// `Path::is_absolute` on a path. On Unix an absolute path begins with its root, a slash. On
/// Windows it has a prefix and the root: a drive with a separator behind it, or a prefix that
/// begins with a separator itself. Which paths of these forms are absolute is up to the platform
/// and left open here.
#[verifier::external_body]
fn path_is_absolute(path: &str) -> (b: bool)
    ensures
        b ==> is_rooted(path@),
{
    std::path::Path::new(path).is_absolute()
}

impl Options {
    /// Reads arguments, without holding them against each other.
    fn collect(args: &[String]) -> (result: Result<Self, DriverError>)
        ensures
            parse_view(result) == collected(args@, default_options()),
    {
        let mut options = Options {
            binary: "dsh".to_string(),
            catalog: false,
            resume: None,
            journal: None,
            initial: None,
            model: None,
            effort: None,
        };
        let mut i: usize = 0;
        assert(args@.skip(0) =~= args@);
        while i < args.len()
            invariant
                i <= args@.len(),
                collected(args@, default_options()) == collected(args@.skip(i as int), options@),
            decreases args@.len() - i,
        {
            let key = args[i].as_str();
            let ghost rest = args@.skip(i as int);
            assert(rest[0] == args@[i as int]);
            if text_eq(key, "--catalog") {
                options.catalog = true;
                assert(rest.skip(1) =~= args@.skip(i + 1));
                i = i + 1;
                continue ;
            }
            if i + 1 >= args.len() {
                return Err(invalid_about("missing value for ", key));
            }
            let value = &args[i + 1];
            assert(rest[1] == args@[i + 1]);
            if value.as_str().is_empty() || contains_control(value.as_str()) {
                return Err(invalid("empty or control-character launch argument"));
            }
            if text_eq(key, "--dsh-bin") {
                options.binary = value.clone();
            } else if text_eq(key, "--resume") {
                options.resume = Some(value.clone());
            } else if text_eq(key, "--journal") {
                options.journal = Some(value.clone());
            } else if text_eq(key, "--initial-prompt") {
                options.initial = Some(value.clone());
            } else if text_eq(key, "--model") {
                options.model = Some(value.clone());
            } else if text_eq(key, "--effort") {
                options.effort = Some(value.clone());
            } else {
                return Err(invalid_about("unknown DSH driver option: ", key));
            }
            assert(rest.skip(2) =~= args@.skip(i + 2));
            i = i + 2;
        }
        Ok(options)
    }

    /// Holds the options against each other and their bounds.
    fn check(self, journal_is_absolute: bool) -> (result: Result<Self, DriverError>)
        ensures
            parse_view(result) == checked(self@, journal_is_absolute),
    {
        if self.catalog && (self.resume.is_some() || self.initial.is_some()
            || self.journal.is_some()) {
            return Err(invalid("catalog inspection cannot resume, prompt, or write a journal"));
        }
        if self.resume.is_some() && self.initial.is_some() {
            return Err(invalid("resume never replays an initializer"));
        }
        if let Some(initial) = &self.initial {
            if byte_len(initial.as_str()) > MAX_TEXT {
                return Err(invalid("initializer exceeds 128 KiB"));
            }
        }
        if self.journal.is_some() && !journal_is_absolute {
            return Err(invalid("journal must be an absolute path"));
        }
        Ok(self)
    }

    /// Reads arguments, where it is known whether the journal that they name is an absolute path.
    pub fn parse_where(args: &[String], journal_is_absolute: bool) -> (result: Result<
        Self,
        DriverError,
    >)
        ensures
            parse_view(result) == parsed(args@, journal_is_absolute),
    {
        match Options::collect(args) {
            Ok(options) => options.check(journal_is_absolute),
            Err(error) => Err(error),
        }
    }

    /// Reads arguments. Whether a journal's path is absolute is up to the platform: everything
    /// else about the result is fixed, and all of it where no journal is named, or one that starts
    /// at no root, which is refused.
    pub fn parse(args: &[String]) -> (result: Result<Self, DriverError>)
        ensures
            parse_view(result) == parsed(args@, true) || parse_view(result) == parsed(args@, false),
            result matches Ok(options) ==> (options@.journal matches Some(path) ==> is_rooted(path)),
    {
        match Options::collect(args) {
            Ok(options) => {
                let absolute = match &options.journal {
                    Some(path) => path_is_absolute(path.as_str()),
                    None => true,
                };
                options.check(absolute)
            },
            Err(error) => Err(error),
        }
    }
}

/// Options that were read never ask for a resumed session and an initial prompt at once, nor for a
/// catalog together with a session, a prompt or a journal; and an initial prompt is in bounds.
pub proof fn law_options_go_together(args: Seq<String>, journal_is_absolute: bool)
    ensures
        parsed(args, journal_is_absolute) matches Ok(options) ==> {
            &&& !(options.resume is Some && options.initial is Some)
            &&& options.catalog ==> options.resume is None && options.initial is None
                && options.journal is None
            &&& options.initial matches Some(initial) ==> utf8_len(initial) <= MAX_TEXT
            &&& options.journal is Some ==> journal_is_absolute
        },
{
}

pub open spec fn is_clean(text: Option<Seq<char>>) -> bool {
    text matches Some(s) ==> s.len() > 0 && !has_control(s)
}

pub open spec fn are_clean(options: OptionsModel) -> bool {
    &&& is_clean(Some(options.binary))
    &&& is_clean(options.resume)
    &&& is_clean(options.journal)
    &&& is_clean(options.initial)
    &&& is_clean(options.model)
    &&& is_clean(options.effort)
}

/// No option that was read is empty or holds a control character.
pub proof fn law_options_are_clean(args: Seq<String>, journal_is_absolute: bool)
    ensures
        parsed(args, journal_is_absolute) matches Ok(options) ==> are_clean(options),
{
    reveal_strlit("dsh");
    assert(!has_control("dsh"@));
    lemma_collected_clean(args, default_options());
}

proof fn lemma_collected_clean(args: Seq<String>, options: OptionsModel)
    requires
        are_clean(options),
    ensures
        collected(args, options) matches Ok(more) ==> are_clean(more),
    decreases args.len(),
{
    if args.len() > 0 {
        if args[0]@ == "--catalog"@ {
            lemma_collected_clean(args.skip(1), OptionsModel { catalog: true, ..options });
        } else if args.len() > 1 && args[1]@.len() > 0 && !has_control(args[1]@) {
            if let Some(more) = with_option(options, args[0]@, args[1]@) {
                lemma_collected_clean(args.skip(2), more);
            }
        }
    }
}

/// A value that an argument can have: not empty, and without control characters.
pub open spec fn is_value(value: Seq<char>) -> bool {
    value.len() > 0 && forall|i: int|
        0 <= i < value.len() ==> !(#[trigger] value[i] as u32 <= 0x1f || 0x7f <= value[i] as u32
            <= 0x9f)
}

proof fn lemma_is_value(value: Seq<char>)
    ensures
        is_value(value) <==> value.len() > 0 && !has_control(value),
{
    if value.len() > 0 && !has_control(value) {
        assert forall|i: int| 0 <= i < value.len() implies !(#[trigger] value[i] as u32 <= 0x1f
            || 0x7f <= value[i] as u32 <= 0x9f) by {
            assert(!is_control_char(value[i]));
        }
    }
    if is_value(value) {
        assert forall|i: int| 0 <= i < value.len() implies !is_control_char(#[trigger] value[i]) by {}
    }
}

proof fn lemma_keys()
    ensures
        "--catalog"@.len() == 9,
        "--dsh-bin"@.len() == 9,
        "--resume"@.len() == 8,
        "--journal"@.len() == 9,
        "--initial-prompt"@.len() == 16,
        "--model"@.len() == 7,
        "--effort"@.len() == 8,
        "--catalog"@ != "--dsh-bin"@ && "--catalog"@ != "--journal"@ && "--dsh-bin"@ != "--journal"@,
        "--resume"@ != "--effort"@,
{
    reveal_strlit("--catalog");
    reveal_strlit("--dsh-bin");
    reveal_strlit("--resume");
    reveal_strlit("--journal");
    reveal_strlit("--initial-prompt");
    reveal_strlit("--model");
    reveal_strlit("--effort");
    assert("--catalog"@[2] == 'c');
    assert("--dsh-bin"@[2] == 'd');
    assert("--journal"@[2] == 'j');
    assert("--resume"@[2] == 'r');
    assert("--effort"@[2] == 'e');
}

/// Arguments are read one after the other: a flag for a catalog, or a key with its value, which takes
/// the place of one that was read before and leaves the other options as they are. A key without a
/// value, a value that cannot be one, and a key that is not known are refused in the words for it.
pub proof fn law_each_argument_sets_its_option(
    key: String,
    value: String,
    rest: Seq<String>,
    o: OptionsModel,
)
    ensures
        ({
            let pair = seq![key, value] + rest;
            let goes = |more: OptionsModel| collected(pair, o) == collected(rest, more);
            let fails = |message: Seq<char>, args: Seq<String>|
                collected(args, o) == Err::<OptionsModel, FaultModel>(
                    FaultModel { kind: ErrorKind::InvalidData, message },
                );
            &&& collected(Seq::empty(), o) == Ok::<OptionsModel, FaultModel>(o)
            &&& key@ == "--catalog"@ ==> collected(seq![key] + rest, o) == collected(
                rest,
                OptionsModel { catalog: true, ..o },
            )
            &&& key@ != "--catalog"@ ==> fails("missing value for "@ + key@, seq![key])
            &&& key@ != "--catalog"@ && !is_value(value@) ==> fails(
                "empty or control-character launch argument"@,
                pair,
            )
            &&& is_value(value@) ==> {
                &&& key@ == "--dsh-bin"@ ==> goes(OptionsModel { binary: value@, ..o })
                &&& key@ == "--resume"@ ==> goes(OptionsModel { resume: Some(value@), ..o })
                &&& key@ == "--journal"@ ==> goes(OptionsModel { journal: Some(value@), ..o })
                &&& key@ == "--initial-prompt"@ ==> goes(
                    OptionsModel { initial: Some(value@), ..o },
                )
                &&& key@ == "--model"@ ==> goes(OptionsModel { model: Some(value@), ..o })
                &&& key@ == "--effort"@ ==> goes(OptionsModel { effort: Some(value@), ..o })
                &&& key@ != "--catalog"@ && key@ != "--dsh-bin"@ && key@ != "--resume"@ && key@
                    != "--journal"@ && key@ != "--initial-prompt"@ && key@ != "--model"@ && key@
                    != "--effort"@ ==> fails("unknown DSH driver option: "@ + key@, pair)
            }
        }),
{
    lemma_keys();
    lemma_is_value(value@);
    let pair = seq![key, value] + rest;
    let flag = seq![key] + rest;
    assert(pair[0] == key && pair[1] == value);
    assert(pair.skip(2) =~= rest);
    assert(flag[0] == key);
    assert(flag.skip(1) =~= rest);
    assert(seq![key][0] == key);
}

/// Options that go together are taken as they are, and each that does not is refused in the words for
/// it: a catalog with a session, a prompt or a journal; a resumed session with a prompt; a prompt of
/// more than 131072 bytes; and a journal that is no absolute path.
pub proof fn law_options_that_go_together_are_taken(o: OptionsModel, absolute: bool)
    ensures
        ({
            let clash = o.catalog && (o.resume is Some || o.initial is Some || o.journal is Some);
            let replay = o.resume is Some && o.initial is Some;
            let long = o.initial matches Some(prompt) && utf8_len(prompt) > 131072;
            let astray = o.journal is Some && !absolute;
            let fails = |message: Seq<char>|
                checked(o, absolute) == Err::<OptionsModel, FaultModel>(
                    FaultModel { kind: ErrorKind::InvalidData, message },
                );
            &&& !clash && !replay && !long && !astray ==> checked(o, absolute) == Ok::<
                OptionsModel,
                FaultModel,
            >(o)
            &&& clash ==> fails("catalog inspection cannot resume, prompt, or write a journal"@)
            &&& !clash && replay ==> fails("resume never replays an initializer"@)
            &&& !clash && !replay && long ==> fails("initializer exceeds 128 KiB"@)
            &&& !clash && !replay && !long && astray ==> fails(
                "journal must be an absolute path"@,
            )
        }),
{
}

/// Without arguments the executable is `dsh` and nothing is asked for; arguments that are read are then
/// held against each other.
pub proof fn law_options_are_read_and_then_checked(args: Seq<String>, absolute: bool)
    ensures
        default_options().binary == "dsh"@ && !default_options().catalog,
        default_options().resume is None && default_options().journal is None,
        default_options().initial is None && default_options().model is None,
        default_options().effort is None,
        match collected(args, default_options()) {
            Ok(options) => parsed(args, absolute) == checked(options, absolute),
            Err(fault) => parsed(args, absolute) == Err::<OptionsModel, FaultModel>(fault),
        },
{
}

/// Options stand for what they hold.
pub proof fn law_options_stand_for_what_they_hold(options: Options)
    ensures
        options@.binary == options.binary@ && options@.catalog == options.catalog,
        options@.resume == text_view(options.resume),
        options@.journal == text_view(options.journal),
        options@.initial == text_view(options.initial),
        options@.model == text_view(options.model),
        options@.effort == text_view(options.effort),
{
}

/// A path starts at a root exactly if it begins with a slash of either kind, or with a drive, a colon
/// and such a slash.
pub proof fn law_rooted_paths_begin_at_a_root(c: char, d: char, e: char, rest: Seq<char>)
    ensures
        !is_rooted(Seq::empty()),
        is_rooted(seq!['/'] + rest) && is_rooted(seq!['\\'] + rest),
        is_rooted(seq![c, ':', '/'] + rest) && is_rooted(seq![c, ':', '\\'] + rest),
        c != '/' && c != '\\' ==> !is_rooted(seq![c]) && !is_rooted(seq![c, d]),
        c != '/' && c != '\\' && (d != ':' || e != '/' && e != '\\') ==> !is_rooted(
            seq![c, d, e] + rest,
        ),
{
    assert((seq!['/'] + rest)[0] == '/');
    assert((seq!['\\'] + rest)[0] == '\\');
    assert((seq![c, ':', '/'] + rest)[1] == ':' && (seq![c, ':', '/'] + rest)[2] == '/');
    assert((seq![c, ':', '\\'] + rest)[1] == ':' && (seq![c, ':', '\\'] + rest)[2] == '\\');
    assert((seq![c, d, e] + rest)[0] == c && (seq![c, d, e] + rest)[1] == d);
    assert((seq![c, d, e] + rest)[2] == e);
}

} // verus!
