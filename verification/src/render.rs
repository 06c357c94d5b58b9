//! The rendering contract: a value that renders has one text, and writes
//! exactly that text to a sink.

use vstd::prelude::*;
use crate::text::{decimal, signed_decimal, write_decimal, write_signed_decimal};

verus! {

/// The failure of a sink to take what was written to it.
#[derive(Debug)]
pub struct WriteError;

/// A sink for text. What it has taken so far is `written()`.
pub trait Write {
    /// Everything the sink has taken so far, in order.
    open spec fn written(&self) -> Seq<char> {
        arbitrary()
    }

    /// Whether the sink takes every write; a `String` does.
    open spec fn reliable(&self) -> bool {
        false
    }

    /// Appends `s`. A failed write promises nothing about the sink.
    fn write_str(&mut self, s: &str) -> (r: Result<(), WriteError>)
        ensures
            r is Ok ==> final(self).written() == old(self).written() + s@,
            old(self).reliable() ==> r is Ok && final(self).reliable(),
    ;
}

impl Write for String {
    open spec fn written(&self) -> Seq<char> {
        self@
    }

    open spec fn reliable(&self) -> bool {
        true
    }

    fn write_str(&mut self, s: &str) -> (r: Result<(), WriteError>) {
        self.append(s);
        Ok(())
    }
}

/// A value that renders to markup.
pub trait Render {
    /// The text this value renders to.
    open spec fn rendered(&self) -> Seq<char> {
        arbitrary()
    }

    /// Writes the rendered text to `w`, stopping at the first failed write.
    fn render<W: Write>(&self, w: &mut W) -> (r: Result<(), WriteError>)
        ensures
            r is Ok ==> final(w).written() == old(w).written() + self.rendered(),
            old(w).reliable() ==> r is Ok && final(w).reliable(),
    ;

    /// The rendered text as a string.
    fn html(&self) -> (r: String)
        ensures
            r@ == self.rendered(),
    {
        let mut buf = String::new();
        let _ = self.render(&mut buf);
        assert(buf@ =~= self.rendered());
        buf
    }
}

impl Render for () {
    open spec fn rendered(&self) -> Seq<char> {
        Seq::empty()
    }

    /// Writes nothing: the sink stays as it is, and no write can fail.
    fn render<W: Write>(&self, w: &mut W) -> (r: Result<(), WriteError>)
        ensures
            r is Ok,
            *final(w) == *old(w),
    {
        assert(w.written() =~= w.written() + Seq::<char>::empty());
        Ok(())
    }
}

impl Render for &str {
    open spec fn rendered(&self) -> Seq<char> {
        self@
    }

    fn render<W: Write>(&self, w: &mut W) -> (r: Result<(), WriteError>) {
        w.write_str(self)
    }
}

impl Render for String {
    open spec fn rendered(&self) -> Seq<char> {
        self@
    }

    fn render<W: Write>(&self, w: &mut W) -> (r: Result<(), WriteError>) {
        w.write_str(self.as_str())
    }
}

/// The text of a truth value: `true` or `false`.
pub open spec fn bool_text(b: bool) -> Seq<char> {
    if b {
        seq!['t', 'r', 'u', 'e']
    } else {
        seq!['f', 'a', 'l', 's', 'e']
    }
}

impl Render for bool {
    open spec fn rendered(&self) -> Seq<char> {
        bool_text(*self)
    }

    fn render<W: Write>(&self, w: &mut W) -> (r: Result<(), WriteError>) {
        if *self {
            proof {
                reveal_strlit("true");
                assert("true"@ =~= bool_text(true));
            }
            w.write_str("true")
        } else {
            proof {
                reveal_strlit("false");
                assert("false"@ =~= bool_text(false));
            }
            w.write_str("false")
        }
    }
}

impl Render for u8 {
    open spec fn rendered(&self) -> Seq<char> {
        decimal(*self as nat)
    }

    fn render<W: Write>(&self, w: &mut W) -> (r: Result<(), WriteError>) {
        let mut digits = String::new();
        write_decimal(*self as u128, &mut digits);
        assert(digits@ =~= decimal(*self as nat));
        w.write_str(digits.as_str())
    }
}

impl Render for u16 {
    open spec fn rendered(&self) -> Seq<char> {
        decimal(*self as nat)
    }

    fn render<W: Write>(&self, w: &mut W) -> (r: Result<(), WriteError>) {
        let mut digits = String::new();
        write_decimal(*self as u128, &mut digits);
        assert(digits@ =~= decimal(*self as nat));
        w.write_str(digits.as_str())
    }
}

impl Render for u32 {
    open spec fn rendered(&self) -> Seq<char> {
        decimal(*self as nat)
    }

    fn render<W: Write>(&self, w: &mut W) -> (r: Result<(), WriteError>) {
        let mut digits = String::new();
        write_decimal(*self as u128, &mut digits);
        assert(digits@ =~= decimal(*self as nat));
        w.write_str(digits.as_str())
    }
}

impl Render for u64 {
    open spec fn rendered(&self) -> Seq<char> {
        decimal(*self as nat)
    }

    fn render<W: Write>(&self, w: &mut W) -> (r: Result<(), WriteError>) {
        let mut digits = String::new();
        write_decimal(*self as u128, &mut digits);
        assert(digits@ =~= decimal(*self as nat));
        w.write_str(digits.as_str())
    }
}

impl Render for u128 {
    open spec fn rendered(&self) -> Seq<char> {
        decimal(*self as nat)
    }

    fn render<W: Write>(&self, w: &mut W) -> (r: Result<(), WriteError>) {
        let mut digits = String::new();
        write_decimal(*self, &mut digits);
        assert(digits@ =~= decimal(*self as nat));
        w.write_str(digits.as_str())
    }
}

impl Render for usize {
    open spec fn rendered(&self) -> Seq<char> {
        decimal(*self as nat)
    }

    fn render<W: Write>(&self, w: &mut W) -> (r: Result<(), WriteError>) {
        let mut digits = String::new();
        write_decimal(*self as u128, &mut digits);
        assert(digits@ =~= decimal(*self as nat));
        w.write_str(digits.as_str())
    }
}

impl Render for i8 {
    open spec fn rendered(&self) -> Seq<char> {
        signed_decimal(*self as int)
    }

    fn render<W: Write>(&self, w: &mut W) -> (r: Result<(), WriteError>) {
        let mut digits = String::new();
        write_signed_decimal(*self as i128, &mut digits);
        assert(digits@ =~= signed_decimal(*self as int));
        w.write_str(digits.as_str())
    }
}

impl Render for i16 {
    open spec fn rendered(&self) -> Seq<char> {
        signed_decimal(*self as int)
    }

    fn render<W: Write>(&self, w: &mut W) -> (r: Result<(), WriteError>) {
        let mut digits = String::new();
        write_signed_decimal(*self as i128, &mut digits);
        assert(digits@ =~= signed_decimal(*self as int));
        w.write_str(digits.as_str())
    }
}

impl Render for i32 {
    open spec fn rendered(&self) -> Seq<char> {
        signed_decimal(*self as int)
    }

    fn render<W: Write>(&self, w: &mut W) -> (r: Result<(), WriteError>) {
        let mut digits = String::new();
        write_signed_decimal(*self as i128, &mut digits);
        assert(digits@ =~= signed_decimal(*self as int));
        w.write_str(digits.as_str())
    }
}

impl Render for i64 {
    open spec fn rendered(&self) -> Seq<char> {
        signed_decimal(*self as int)
    }

    fn render<W: Write>(&self, w: &mut W) -> (r: Result<(), WriteError>) {
        let mut digits = String::new();
        write_signed_decimal(*self as i128, &mut digits);
        assert(digits@ =~= signed_decimal(*self as int));
        w.write_str(digits.as_str())
    }
}

impl Render for i128 {
    open spec fn rendered(&self) -> Seq<char> {
        signed_decimal(*self as int)
    }

    fn render<W: Write>(&self, w: &mut W) -> (r: Result<(), WriteError>) {
        let mut digits = String::new();
        write_signed_decimal(*self, &mut digits);
        assert(digits@ =~= signed_decimal(*self as int));
        w.write_str(digits.as_str())
    }
}

impl<A: Render, B: Render> Render for (A, B) {
    open spec fn rendered(&self) -> Seq<char> {
        self.0.rendered() + self.1.rendered()
    }

    fn render<W: Write>(&self, w: &mut W) -> (r: Result<(), WriteError>) {
        self.0.render(w)?;
        self.1.render(w)?;
        assert(w.written() =~= old(w).written() + self.rendered());
        Ok(())
    }
}

impl<A: Render, B: Render, C: Render> Render for (A, B, C) {
    open spec fn rendered(&self) -> Seq<char> {
        self.0.rendered() + self.1.rendered() + self.2.rendered()
    }

    fn render<W: Write>(&self, w: &mut W) -> (r: Result<(), WriteError>) {
        self.0.render(w)?;
        self.1.render(w)?;
        self.2.render(w)?;
        assert(w.written() =~= old(w).written() + self.rendered());
        Ok(())
    }
}

impl<A: Render, B: Render, C: Render, D: Render> Render for (A, B, C, D) {
    open spec fn rendered(&self) -> Seq<char> {
        self.0.rendered() + self.1.rendered() + self.2.rendered() + self.3.rendered()
    }

    fn render<W: Write>(&self, w: &mut W) -> (r: Result<(), WriteError>) {
        self.0.render(w)?;
        self.1.render(w)?;
        self.2.render(w)?;
        self.3.render(w)?;
        assert(w.written() =~= old(w).written() + self.rendered());
        Ok(())
    }
}

impl<A: Render, B: Render, C: Render, D: Render, E: Render> Render for (A, B, C, D, E) {
    open spec fn rendered(&self) -> Seq<char> {
        self.0.rendered() + self.1.rendered() + self.2.rendered() + self.3.rendered()
            + self.4.rendered()
    }

    fn render<W: Write>(&self, w: &mut W) -> (r: Result<(), WriteError>) {
        self.0.render(w)?;
        self.1.render(w)?;
        self.2.render(w)?;
        self.3.render(w)?;
        self.4.render(w)?;
        assert(w.written() =~= old(w).written() + self.rendered());
        Ok(())
    }
}

impl<
    A: Render,
    B: Render,
    C: Render,
    D: Render,
    E: Render,
    F: Render,
> Render for (A, B, C, D, E, F) {
    open spec fn rendered(&self) -> Seq<char> {
        self.0.rendered() + self.1.rendered() + self.2.rendered() + self.3.rendered()
            + self.4.rendered() + self.5.rendered()
    }

    fn render<W: Write>(&self, w: &mut W) -> (r: Result<(), WriteError>) {
        self.0.render(w)?;
        self.1.render(w)?;
        self.2.render(w)?;
        self.3.render(w)?;
        self.4.render(w)?;
        self.5.render(w)?;
        assert(w.written() =~= old(w).written() + self.rendered());
        Ok(())
    }
}

impl<
    A: Render,
    B: Render,
    C: Render,
    D: Render,
    E: Render,
    F: Render,
    G: Render,
> Render for (A, B, C, D, E, F, G) {
    open spec fn rendered(&self) -> Seq<char> {
        self.0.rendered() + self.1.rendered() + self.2.rendered() + self.3.rendered()
            + self.4.rendered() + self.5.rendered() + self.6.rendered()
    }

    fn render<W: Write>(&self, w: &mut W) -> (r: Result<(), WriteError>) {
        self.0.render(w)?;
        self.1.render(w)?;
        self.2.render(w)?;
        self.3.render(w)?;
        self.4.render(w)?;
        self.5.render(w)?;
        self.6.render(w)?;
        assert(w.written() =~= old(w).written() + self.rendered());
        Ok(())
    }
}

impl<
    A: Render,
    B: Render,
    C: Render,
    D: Render,
    E: Render,
    F: Render,
    G: Render,
    H: Render,
> Render for (A, B, C, D, E, F, G, H) {
    open spec fn rendered(&self) -> Seq<char> {
        self.0.rendered() + self.1.rendered() + self.2.rendered() + self.3.rendered()
            + self.4.rendered() + self.5.rendered() + self.6.rendered() + self.7.rendered()
    }

    fn render<W: Write>(&self, w: &mut W) -> (r: Result<(), WriteError>) {
        self.0.render(w)?;
        self.1.render(w)?;
        self.2.render(w)?;
        self.3.render(w)?;
        self.4.render(w)?;
        self.5.render(w)?;
        self.6.render(w)?;
        self.7.render(w)?;
        assert(w.written() =~= old(w).written() + self.rendered());
        Ok(())
    }
}

impl<
    A: Render,
    B: Render,
    C: Render,
    D: Render,
    E: Render,
    F: Render,
    G: Render,
    H: Render,
    I: Render,
> Render for (A, B, C, D, E, F, G, H, I) {
    open spec fn rendered(&self) -> Seq<char> {
        self.0.rendered() + self.1.rendered() + self.2.rendered() + self.3.rendered()
            + self.4.rendered() + self.5.rendered() + self.6.rendered() + self.7.rendered()
            + self.8.rendered()
    }

    fn render<W: Write>(&self, w: &mut W) -> (r: Result<(), WriteError>) {
        self.0.render(w)?;
        self.1.render(w)?;
        self.2.render(w)?;
        self.3.render(w)?;
        self.4.render(w)?;
        self.5.render(w)?;
        self.6.render(w)?;
        self.7.render(w)?;
        self.8.render(w)?;
        assert(w.written() =~= old(w).written() + self.rendered());
        Ok(())
    }
}

impl<
    A: Render,
    B: Render,
    C: Render,
    D: Render,
    E: Render,
    F: Render,
    G: Render,
    H: Render,
    I: Render,
    J: Render,
> Render for (A, B, C, D, E, F, G, H, I, J) {
    open spec fn rendered(&self) -> Seq<char> {
        self.0.rendered() + self.1.rendered() + self.2.rendered() + self.3.rendered()
            + self.4.rendered() + self.5.rendered() + self.6.rendered() + self.7.rendered()
            + self.8.rendered() + self.9.rendered()
    }

    fn render<W: Write>(&self, w: &mut W) -> (r: Result<(), WriteError>) {
        self.0.render(w)?;
        self.1.render(w)?;
        self.2.render(w)?;
        self.3.render(w)?;
        self.4.render(w)?;
        self.5.render(w)?;
        self.6.render(w)?;
        self.7.render(w)?;
        self.8.render(w)?;
        self.9.render(w)?;
        assert(w.written() =~= old(w).written() + self.rendered());
        Ok(())
    }
}

} // verus!
