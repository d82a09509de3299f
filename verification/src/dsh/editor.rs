//! The line on which the user writes a prompt.
use vstd::prelude::*;
use vstd::utf8::{encode_scalar, encode_utf8};

use super::driver::is_prompt;
use super::error::{invalid, invalid_data, DriverError, ErrorKind, FaultModel};
use super::keys::{Key, KeyName};
use super::options::MAX_TEXT;
use crate::text::{
    byte_len, is_bare, is_blank, law_trimming_takes_the_ends_only, lemma_utf8_add, terminal,
    terminal_text, text_eq, trim, trimmed, utf8_len,
};

verus! {

/// What the terminal hands over.
#[derive(Debug, PartialEq, Eq)]
pub enum Typed {
    Paste(String),
    Key(Key),
    /// Anything else, such as a change of the terminal's size.
    Other,
}

/// What is to become of the line.
#[derive(Debug, PartialEq, Eq)]
pub enum Line {
    /// It is still being written.
    Open,
    /// It is a prompt.
    Submitted(String),
    /// The user wants to leave.
    Exit,
}

/// The content of a `Line`.
pub enum LineModel {
    Open,
    Submitted(Seq<char>),
    Exit,
}

impl View for Line {
    type V = LineModel;

    open spec fn view(&self) -> LineModel {
        match *self {
            Line::Open => LineModel::Open,
            Line::Submitted(text) => LineModel::Submitted(text@),
            Line::Exit => LineModel::Exit,
        }
    }
}

/// The line so far.
#[derive(Debug, PartialEq, Eq)]
pub struct Editor {
    pub input: String,
}

/// What typing comes to: the line so far, what becomes of it, and what the terminal shows of it.
pub struct Edit {
    pub input: Seq<char>,
    pub line: LineModel,
    pub shown: Seq<char>,
}

/// The line goes on.
pub open spec fn going_on(input: Seq<char>, shown: Seq<char>) -> Edit {
    Edit { input, line: LineModel::Open, shown }
}

/// What the enter key comes to: a line that says `/exit` leaves, a blank one stays.
pub open spec fn entered(input: Seq<char>) -> Edit {
    if trimmed(input) == "/exit"@ {
        Edit { input: Seq::empty(), line: LineModel::Exit, shown: "\r\n"@ }
    } else if trimmed(input).len() > 0 {
        Edit { input: Seq::empty(), line: LineModel::Submitted(input), shown: "\r\n"@ }
    } else {
        going_on(input, "\r\n"@)
    }
}

/// What a key comes to.
pub open spec fn keyed(input: Seq<char>, key: Key) -> Result<Edit, FaultModel> {
    match key.name {
        KeyName::Enter => Ok(entered(input)),
        KeyName::Backspace => Ok(
            if input.len() > 0 {
                going_on(input.drop_last(), "\x08 \x08"@)
            } else {
                going_on(input, Seq::empty())
            },
        ),
        KeyName::Char(c) => if key.control && c == 'd' {
            Ok(Edit { input: Seq::empty(), line: LineModel::Exit, shown: Seq::empty() })
        } else if key.control && c == 'c' {
            Ok(going_on(Seq::empty(), "\r\ndsh> "@))
        } else if key.control || key.alt {
            Ok(going_on(input, Seq::empty()))
        } else if utf8_len(input.push(c)) > MAX_TEXT {
            Err(invalid_data("prompt exceeds 128 KiB"@))
        } else {
            Ok(going_on(input.push(c), seq![c]))
        },
        KeyName::Other => Ok(going_on(input, Seq::empty())),
    }
}

/// What typing comes to.
pub open spec fn typing(input: Seq<char>, typed: Typed) -> Result<Edit, FaultModel> {
    match typed {
        Typed::Paste(text) => if utf8_len(input + text@) > MAX_TEXT {
            Err(invalid_data("paste exceeds 128 KiB"@))
        } else {
            Ok(going_on(input + text@, terminal(text@)))
        },
        Typed::Key(key) => if key.press {
            keyed(input, key)
        } else {
            Ok(going_on(input, Seq::empty()))
        },
        Typed::Other => Ok(going_on(input, Seq::empty())),
    }
}

/// The number of bytes that a character takes.
fn char_len(c: char) -> (n: usize)
    ensures
        n == utf8_len(seq![c]),
{
    let code = c as u32;
    proof {
        let one = seq![c];
        assert(encode_utf8(one.drop_first()) =~= Seq::<u8>::empty());
        assert(encode_utf8(one) =~= encode_scalar(c as u32));
    }
    if code <= 0x7f {
        1
    } else if code <= 0x7ff {
        2
    } else if code <= 0xffff {
        3
    } else {
        4
    }
}

impl Editor {
    /// An empty line, and what the terminal shows before it.
    pub fn open() -> (opened: (Editor, String))
        ensures
            opened.0.input@ == Seq::<char>::empty(),
            opened.1@ == "dsh> "@,
    {
        (Editor { input: String::new() }, "dsh> ".to_string())
    }

    /// Hands the line out.
    fn take(&mut self) -> (line: String)
        ensures
            line@ == old(self).input@,
            final(self).input@ == Seq::<char>::empty(),
    {
        let mut line = String::new();
        std::mem::swap(&mut self.input, &mut line);
        line
    }

    /// Takes the enter key.
    fn enter(&mut self) -> (edit: (Line, String))
        ensures
            (Edit { input: final(self).input@, line: edit.0@, shown: edit.1@ }) == entered(
                old(self).input@,
            ),
    {
        let bare = trim(self.input.as_str());
        if text_eq(bare.as_str(), "/exit") {
            let _ = self.take();
            (Line::Exit, "\r\n".to_string())
        } else if !bare.as_str().is_empty() {
            let line = self.take();
            (Line::Submitted(line), "\r\n".to_string())
        } else {
            (Line::Open, "\r\n".to_string())
        }
    }

    /// Takes a key.
    fn key(&mut self, key: Key) -> (edit: Result<(Line, String), DriverError>)
        ensures
            match (edit, keyed(old(self).input@, key)) {
                (Ok((line, shown)), Ok(expected)) => (Edit {
                    input: final(self).input@,
                    line: line@,
                    shown: shown@,
                }) == expected,
                (Err(error), Err(fault)) => error@ == fault && final(self).input@ == old(
                    self,
                ).input@,
                _ => false,
            },
    {
        match key.name {
            KeyName::Enter => Ok(self.enter()),
            KeyName::Backspace => {
                match self.input.pop() {
                    Some(_) => Ok((Line::Open, "\x08 \x08".to_string())),
                    None => Ok((Line::Open, String::new())),
                }
            },
            KeyName::Char(c) => {
                if key.control && c == 'd' {
                    let _ = self.take();
                    Ok((Line::Exit, String::new()))
                } else if key.control && c == 'c' {
                    let _ = self.take();
                    Ok((Line::Open, "\r\ndsh> ".to_string()))
                } else if key.control || key.alt {
                    Ok((Line::Open, String::new()))
                } else {
                    proof {
                        lemma_utf8_add(self.input@, seq![c]);
                        assert(self.input@ + seq![c] =~= self.input@.push(c));
                    }
                    let held = byte_len(self.input.as_str());
                    if held > MAX_TEXT || char_len(c) > MAX_TEXT - held {
                        return Err(invalid("prompt exceeds 128 KiB"));
                    }
                    self.input.push(c);
                    let mut shown = String::new();
                    shown.push(c);
                    assert(shown@ =~= seq![c]);
                    Ok((Line::Open, shown))
                }
            },
            KeyName::Other => Ok((Line::Open, String::new())),
        }
    }

    /// Takes what the terminal hands over: says what becomes of the line, and what is shown.
    pub fn read_prompt(&mut self, typed: Typed) -> (edit: Result<(Line, String), DriverError>)
        ensures
            match (edit, typing(old(self).input@, typed)) {
                (Ok((line, shown)), Ok(expected)) => (Edit {
                    input: final(self).input@,
                    line: line@,
                    shown: shown@,
                }) == expected,
                (Err(error), Err(fault)) => error@ == fault && final(self).input@ == old(
                    self,
                ).input@,
                _ => false,
            },
    {
        match typed {
            Typed::Paste(text) => {
                proof {
                    lemma_utf8_add(self.input@, text@);
                }
                let held = byte_len(self.input.as_str());
                if held > MAX_TEXT || byte_len(text.as_str()) > MAX_TEXT - held {
                    return Err(invalid("paste exceeds 128 KiB"));
                }
                self.input.push_str(text.as_str());
                Ok((Line::Open, terminal_text(text.as_str())))
            },
            Typed::Key(key) => if key.press {
                self.key(key)
            } else {
                Ok((Line::Open, String::new()))
            },
            Typed::Other => Ok((Line::Open, String::new())),
        }
    }
}

/// A line never grows beyond what a prompt may have, and what is submitted is a prompt.
pub proof fn law_lines_are_prompts(input: Seq<char>, typed: Typed)
    requires
        utf8_len(input) <= MAX_TEXT,
    ensures
        typing(input, typed) matches Ok(edit) ==> {
            &&& utf8_len(edit.input) <= MAX_TEXT
            &&& edit.line matches LineModel::Submitted(prompt) ==> is_prompt(prompt) && prompt
                == input
        },
{
    if input.len() > 0 {
        lemma_utf8_add(input.drop_last(), seq![input.last()]);
        assert(input.drop_last() + seq![input.last()] =~= input);
    }
}

/// A character that is typed is added at the end of the line and shown as it is, as long as the line
/// stays within 131072 bytes; what is pasted is added whole and shown without terminal controls,
/// within the same bound. A line that would grow beyond it ends in an error.
pub proof fn law_what_is_typed_is_added(input: Seq<char>, c: char, alt: bool, text: String)
    ensures
        ({
            let key = Key { press: true, control: false, alt: false, name: KeyName::Char(c) };
            &&& utf8_len(input.push(c)) <= 131072 ==> (typing(input, Typed::Key(key)) matches Ok(edit)
                && edit.input == input.push(c) && edit.line is Open && edit.shown == seq![c])
            &&& utf8_len(input.push(c)) > 131072 ==> typing(input, Typed::Key(key)) == Err::<
                Edit,
                FaultModel,
            >(FaultModel { kind: ErrorKind::InvalidData, message: "prompt exceeds 128 KiB"@ })
            &&& utf8_len(input + text@) <= 131072 ==> (typing(
                input,
                Typed::Paste(text),
            ) matches Ok(edit) && edit.input == input + text@ && edit.line is Open && edit.shown
                == terminal(text@))
            &&& utf8_len(input + text@) > 131072 ==> typing(input, Typed::Paste(text)) == Err::<
                Edit,
                FaultModel,
            >(FaultModel { kind: ErrorKind::InvalidData, message: "paste exceeds 128 KiB"@ })
        }),
{
}

/// The enter key submits a line as it is unless it is blank, which stays, or says `/exit` between
/// white space, which leaves. Each ends the line on the terminal.
pub proof fn law_lines_are_submitted_as_they_are(
    a: Seq<char>,
    words: Seq<char>,
    b: Seq<char>,
    control: bool,
    alt: bool,
)
    requires
        is_blank(a),
        is_bare(words),
        is_blank(b),
    ensures
        ({
            let input = a + words + b;
            let key = Key { press: true, control, alt, name: KeyName::Enter };
            typing(input, Typed::Key(key)) matches Ok(edit) && {
                &&& edit.shown == "\r\n"@
                &&& words == "/exit"@ ==> edit.line is Exit
                &&& words.len() == 0 ==> edit.line is Open && edit.input == input
                &&& words.len() > 0 && words != "/exit"@ ==> edit.line == LineModel::Submitted(
                    input,
                )
            }
        }),
{
    law_trimming_takes_the_ends_only(a, words, b);
    reveal_strlit("/exit");
    assert("/exit"@.len() == 5);
}

/// Backspace takes the last character off the line and the terminal, and does nothing on an empty
/// one.
pub proof fn law_backspace_takes_the_last_character(
    input: Seq<char>,
    c: char,
    control: bool,
    alt: bool,
)
    ensures
        ({
            let key = Key { press: true, control, alt, name: KeyName::Backspace };
            &&& typing(input.push(c), Typed::Key(key)) matches Ok(edit) && edit.input == input
                && edit.line is Open && edit.shown == "\x08 \x08"@
            &&& typing(Seq::empty(), Typed::Key(key)) matches Ok(edit) && edit.input.len() == 0
                && edit.line is Open && edit.shown.len() == 0
        }),
{
    assert(input.push(c).drop_last() =~= input);
}

/// Control and d leaves, control and c starts a new line, and nothing else happens with control or
/// alt, with a key that is not pressed, or with anything that is no key and no paste.
pub proof fn law_control_keys_leave_or_start_again(input: Seq<char>, key: Key, c: char, alt: bool)
    ensures
        typing(
            input,
            Typed::Key(Key { press: true, control: true, alt, name: KeyName::Char('d') }),
        ) matches Ok(edit) && edit.line is Exit && edit.shown.len() == 0,
        typing(
            input,
            Typed::Key(Key { press: true, control: true, alt, name: KeyName::Char('c') }),
        ) matches Ok(edit) && edit.line is Open && edit.input.len() == 0 && edit.shown
            == "\r\ndsh> "@,
        !key.press || key.name is Other || key.name == KeyName::Char(c) && (key.alt && !key.control
            || key.control && c != 'c' && c != 'd') ==> (typing(input, Typed::Key(key)) matches Ok(
            edit,
        ) && edit.line is Open && edit.input == input && edit.shown.len() == 0),
        typing(input, Typed::Other) matches Ok(edit) && edit.line is Open && edit.input == input
            && edit.shown.len() == 0,
{
}

/// A line stands for what is to become of it.
pub proof fn law_lines_stand_for_what_becomes_of_them(line: Line)
    ensures
        match line {
            Line::Open => line@ is Open,
            Line::Submitted(text) => line@ == LineModel::Submitted(text@),
            Line::Exit => line@ is Exit,
        },
{
}

} // verus!
