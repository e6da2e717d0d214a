use vstd::prelude::*;
use vstd::string::*;

use crate::text::push_char;

verus! {

/// A key press, as the editor sees it.
#[derive(Clone, Copy, Debug, PartialEq, Eq, Structural, Hash)]
pub enum Key {
    Enter,
    Tab,
    Backspace,
    Esc,
    Left,
    Right,
    Up,
    Down,
    Ins,
    Delete,
    Home,
    End,
    PageUp,
    PageDown,
    Space,
    F(u8),
    Char(char),
    Ctrl(char),
    Alt(char),
    Unknown,
}

} // verus!

verus! {

/// What the input loop hands over.
pub enum InputEvent {
    /// A key was pressed.
    Input(Key),
    /// Time passed with no input.
    Tick,
}

} // verus!

verus! {

/// The decimal digits of `n`.
pub open spec fn decimal(n: nat) -> Seq<char>
    decreases n,
{
    let d = seq![(('0' as u32) + (n % 10) as u32) as char];
    if n < 10 {
        d
    } else {
        decimal(n / 10) + d
    }
}

impl Key {
    /// How the help view shows the key, between angle brackets.
    pub open spec fn spec_label(self) -> Seq<char> {
        "<"@ + match self {
            Key::Enter => "Enter"@,
            Key::Tab => "Tab"@,
            Key::Backspace => "Backspace"@,
            Key::Esc => "Esc"@,
            Key::Left => "Left"@,
            Key::Right => "Right"@,
            Key::Up => "Up"@,
            Key::Down => "Down"@,
            Key::Ins => "Ins"@,
            Key::Delete => "Delete"@,
            Key::Home => "Home"@,
            Key::End => "End"@,
            Key::PageUp => "PageUp"@,
            Key::PageDown => "PageDown"@,
            Key::Space => "Space"@,
            Key::F(n) => "F"@ + decimal(n as nat),
            Key::Char(' ') => "Space"@,
            Key::Char(c) => seq![c],
            Key::Ctrl(' ') => "Ctrl+Space"@,
            Key::Ctrl(c) => "Ctrl+"@.push(c),
            Key::Alt(' ') => "Alt+Space"@,
            Key::Alt(c) => "Alt+"@.push(c),
            Key::Unknown => "Unknown"@,
        } + ">"@
    }

    /// How the help view shows the key.
    pub fn label(&self) -> (r: String)
        ensures
            r@ == self.spec_label(),
    {
        let mut r = String::from_str("<");
        match *self {
            Key::Enter => r.append("Enter"),
            Key::Tab => r.append("Tab"),
            Key::Backspace => r.append("Backspace"),
            Key::Esc => r.append("Esc"),
            Key::Left => r.append("Left"),
            Key::Right => r.append("Right"),
            Key::Up => r.append("Up"),
            Key::Down => r.append("Down"),
            Key::Ins => r.append("Ins"),
            Key::Delete => r.append("Delete"),
            Key::Home => r.append("Home"),
            Key::End => r.append("End"),
            Key::PageUp => r.append("PageUp"),
            Key::PageDown => r.append("PageDown"),
            Key::Space => r.append("Space"),
            Key::F(n) => {
                r.append("F");
                let digits = decimal_string(n);
                r.append(digits.as_str());
            },
            Key::Char(c) => {
                if c == ' ' {
                    r.append("Space");
                } else {
                    push_char(&mut r, c);
                }
            },
            Key::Ctrl(c) => {
                if c == ' ' {
                    r.append("Ctrl+Space");
                } else {
                    r.append("Ctrl+");
                    push_char(&mut r, c);
                }
            },
            Key::Alt(c) => {
                if c == ' ' {
                    r.append("Alt+Space");
                } else {
                    r.append("Alt+");
                    push_char(&mut r, c);
                }
            },
            Key::Unknown => r.append("Unknown"),
        }
        r.append(">");
        r
    }
}

/// The decimal digits of `n`.
fn decimal_string(n: u8) -> (r: String)
    ensures
        r@ == decimal(n as nat),
{
    let mut r = String::new();
    if n >= 100 {
        push_char(&mut r, ((('0' as u8) + n / 100) as char));
    }
    if n >= 10 {
        push_char(&mut r, ((('0' as u8) + (n / 10) % 10) as char));
    }
    push_char(&mut r, ((('0' as u8) + n % 10) as char));
    proof {
        let m = n as nat;
        if m >= 10 {
            assert(decimal(m) == decimal(m / 10) + seq![(('0' as u32) + (m % 10) as u32) as char]);
            if m / 10 >= 10 {
                assert(decimal(m / 10) == decimal(m / 100) + seq![(('0' as u32) + ((m / 10) % 10) as u32) as char]);
                assert(m / 100 < 10);
            }
        }
        assert(r@ =~= decimal(m));
    }
    r
}

} // verus!
