//! The command line: its parsed form, the language it selects, and the
//! localized help layouts.

use vstd::prelude::*;

use crate::app::{select_index, selects, AppError};
use crate::domain::DeviceSnapshot;
use crate::presentation::locale::{Locale, Messages};
use crate::presentation::output::{detail_text, list_text, render_detail, render_list};
use crate::presentation::smart_view::ScaledFigures;
use crate::text::{owned, push_str};

verus! {

/// The parsed command line.
#[derive(Clone, Debug)]
pub struct Cli {
    /// SMART refresh interval in seconds; zero disables scheduled refresh.
    pub interval: u64,
    /// The language given with `--lang`.
    pub lang: Option<LanguageArg>,
    /// The subcommand; none starts the interactive interface.
    pub command: Option<Command>,
}

/// A language accepted by `--lang`.
#[derive(Clone, Copy, Debug, PartialEq, Eq)]
pub enum LanguageArg {
    En,
    ZhCn,
}

/// A subcommand.
#[derive(Clone, Debug)]
pub enum Command {
    List { json: bool },
    Show { device: String, json: bool },
    Watch { device: Option<String> },
}

/// The locale of a `--lang` value.
pub open spec fn language_locale(arg: LanguageArg) -> Locale {
    match arg {
        LanguageArg::En => Locale::En,
        LanguageArg::ZhCn => Locale::ZhCn,
    }
}

impl LanguageArg {
    /// The locale this language selects.
    pub fn locale(self) -> (l: Locale)
        ensures
            l == language_locale(self),
    {
        match self {
            LanguageArg::En => Locale::En,
            LanguageArg::ZhCn => Locale::ZhCn,
        }
    }
}

impl Cli {
    /// The interface locale: the parsed `--lang` value, else the locale
    /// detected before parsing.
    pub fn locale(&self, detected: Locale) -> (l: Locale)
        ensures
            l == match self.lang {
                Some(arg) => language_locale(arg),
                None => detected,
            },
    {
        match self.lang {
            Some(arg) => arg.locale(),
            None => detected,
        }
    }
}

/// The help layout of the program: about, usage, commands and options.
pub open spec fn root_template(m: Messages) -> Seq<char> {
    "{about-with-newline}\n"@ + m.usage_heading@ + " {usage}\n\n"@ + m.commands_heading@
        + "\n{subcommands}\n\n"@ + m.options_heading@ + "\n{options}"@
}

/// The help layout of a subcommand with arguments.
pub open spec fn argument_template(m: Messages) -> Seq<char> {
    "{about-with-newline}\n"@ + m.usage_heading@ + " {usage}\n\n"@ + m.arguments_heading@
        + "\n{positionals}\n\n"@ + m.options_heading@ + "\n{options}"@
}

/// The help layout of a subcommand with options only.
pub open spec fn option_template(m: Messages) -> Seq<char> {
    "{about-with-newline}\n"@ + m.usage_heading@ + " {usage}\n\n"@ + m.options_heading@
        + "\n{options}"@
}

/// The localized help layout of the program.
pub fn root_help_template(messages: &Messages) -> (s: String)
    ensures
        s@ == root_template(*messages),
{
    let mut s = owned("{about-with-newline}\n");
    push_str(&mut s, messages.usage_heading);
    push_str(&mut s, " {usage}\n\n");
    push_str(&mut s, messages.commands_heading);
    push_str(&mut s, "\n{subcommands}\n\n");
    push_str(&mut s, messages.options_heading);
    push_str(&mut s, "\n{options}");
    s
}

/// The localized help layout of a subcommand with arguments.
pub fn argument_help_template(messages: &Messages) -> (s: String)
    ensures
        s@ == argument_template(*messages),
{
    let mut s = owned("{about-with-newline}\n");
    push_str(&mut s, messages.usage_heading);
    push_str(&mut s, " {usage}\n\n");
    push_str(&mut s, messages.arguments_heading);
    push_str(&mut s, "\n{positionals}\n\n");
    push_str(&mut s, messages.options_heading);
    push_str(&mut s, "\n{options}");
    s
}

/// The localized help layout of a subcommand with options only.
pub fn option_help_template(messages: &Messages) -> (s: String)
    ensures
        s@ == option_template(*messages),
{
    let mut s = owned("{about-with-newline}\n");
    push_str(&mut s, messages.usage_heading);
    push_str(&mut s, " {usage}\n\n");
    push_str(&mut s, messages.options_heading);
    push_str(&mut s, "\n{options}");
    s
}

/// The help layout of a subcommand: with or without arguments.
pub fn subcommand_help_template(locale: Locale, has_positionals: bool) -> (s: String)
    ensures
        s@ == if has_positionals {
            argument_template(crate::presentation::locale::messages_of(locale))
        } else {
            option_template(crate::presentation::locale::messages_of(locale))
        },
{
    let m = locale.messages();
    if has_positionals {
        argument_help_template(&m)
    } else {
        option_help_template(&m)
    }
}

/// One frame of `watch`: the details of the first disk that `selector`
/// names, or the disk list when there is no selector. `figures[i]` holds
/// the scaled figures of `devices[i]`.
pub fn watch_frame(
    devices: &[DeviceSnapshot],
    figures: &[ScaledFigures],
    selector: Option<&str>,
    locale: Locale,
) -> (r: Result<String, AppError>)
    requires
        figures@.len() == devices@.len(),
    ensures
        match selector {
            None => r is Ok && r->Ok_0@ == list_text(devices@, figures@, locale),
            Some(sel) => {
                &&& r is Ok <==> exists|i: int| 0 <= i < devices@.len() && selects(#[trigger] devices@[i], sel@)
                &&& r is Ok ==> exists|i: int|
                    0 <= i < devices@.len() && selects(devices@[i], sel@)
                        && (forall|k: int| 0 <= k < i ==> !selects(#[trigger] devices@[k], sel@))
                        && r->Ok_0@ == detail_text(devices@[i], figures@[i], locale)
                &&& r is Err ==> (r->Err_0 matches AppError::DeviceNotFound(s) && s@ == sel@)
            },
        },
{
    match selector {
        None => Ok(render_list(devices, figures, locale)),
        Some(sel) => match select_index(devices, sel) {
            Some(i) => Ok(render_detail(&devices[i], &figures[i], locale)),
            None => Err(AppError::DeviceNotFound(owned(sel))),
        },
    }
}

} // verus!
