//! First-error-wins semantics of the composite builders, exercised with a
//! sink of bounded capacity.

use restd::fmt::{Error, Format, Pretty, Write};

/// A text sink that accepts only a fixed number of characters, then
/// refuses every further write.
struct LimitedSink {
    text: String,
    left: usize,
}

impl LimitedSink {
    fn new(cap: usize) -> Self {
        LimitedSink {
            text: String::new(),
            left: cap,
        }
    }
}

impl Write for LimitedSink {
    fn content(&self) -> vstd::seq::Seq<char> {
        unreachable!()
    }

    fn infallible(&self) -> bool {
        unreachable!()
    }

    fn write_str(&mut self, data: &str) -> Result<(), Error> {
        let n = data.chars().count();
        if n > self.left {
            return Err(Error);
        }
        self.left -= n;
        self.text.push_str(data);
        Ok(())
    }

    fn write_char(&mut self, data: char) -> Result<(), Error> {
        if self.left == 0 {
            return Err(Error);
        }
        self.left -= 1;
        self.text.push(data);
        Ok(())
    }
}

#[test]
fn first_error_wins_debug_struct() {
    // capacity runs out while writing the first field's value
    let mut f = LimitedSink::new(10);
    let d = restd::fmt::Debug;
    let mut b = d.dbg_struct(&mut f, "S");
    b.field(&mut f, "x", &123456789u64);
    let frozen = f.text.clone();

    // every subsequent field call is a no-op on the sink
    b.field(&mut f, "y", &1u8);
    b.field(&mut f, "z", &"long field value");
    assert_eq!(f.text, frozen);

    // and finish surfaces the recorded failure
    assert_eq!(b.finish(&mut f), Err(Error));
    assert_eq!(f.text, frozen);
}

#[test]
fn first_error_wins_pretty_tuple() {
    let mut f = LimitedSink::new(3);
    let p = Pretty(0);
    let mut b = p.dbg_tuple(&mut f, "Tup");
    b.field(&mut f, &1u8);
    let frozen = f.text.clone();
    b.field(&mut f, &2u8);
    b.field(&mut f, &3u8);
    assert_eq!(f.text, frozen);
    assert_eq!(b.finish(&mut f), Err(Error));
    assert_eq!(f.text, frozen);
}

#[test]
fn sink_failure_propagates_from_leaves() {
    let mut f = LimitedSink::new(2);
    assert_eq!("abc".fmt(&mut f, &restd::fmt::Display), Err(Error));
    // the refused write left nothing behind
    assert_eq!(f.text, "");
    assert_eq!(123u8.fmt(&mut f, &restd::fmt::Display), Err(Error));
    // a failure mid-rendering leaves at most a prefix of the rendering
    assert_eq!(f.text, "12");
}
