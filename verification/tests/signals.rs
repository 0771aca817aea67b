use bp::Algorithm;
use bp::Signal;
use bp::Sigmoid;

/// An IEEE double as a [`Signal`]: the scalar the engine is meant to run on
/// in a host program.
#[derive(Clone, Copy, Debug, PartialEq)]
struct F(f64);

impl Signal for F {
    // The `*_spec` items are the trait's specification-level counterparts of
    // the operations; outside verification they are never called, and here
    // each is simply the operation it describes.
    fn add_spec(self, o: F) -> F {
        self.add(o)
    }
    fn sub_spec(self, o: F) -> F {
        self.sub(o)
    }
    fn mul_spec(self, o: F) -> F {
        self.mul(o)
    }
    fn div_spec(self, o: F) -> F {
        self.div(o)
    }
    fn neg_spec(self) -> F {
        self.neg()
    }
    fn exp_spec(self) -> F {
        self.exp()
    }
    fn le_spec(self, o: F) -> bool {
        self.le(o)
    }
    fn zero_spec() -> F {
        F(0.0)
    }
    fn one_spec() -> F {
        F(1.0)
    }
    fn from_usize_spec(n: usize) -> F {
        F(n as f64)
    }
    fn add(self, o: F) -> F {
        F(self.0 + o.0)
    }
    fn sub(self, o: F) -> F {
        F(self.0 - o.0)
    }
    fn mul(self, o: F) -> F {
        F(self.0 * o.0)
    }
    fn div(self, o: F) -> F {
        F(self.0 / o.0)
    }
    fn neg(self) -> F {
        F(-self.0)
    }
    fn exp(self) -> F {
        F(self.0.exp())
    }
    fn le(self, o: F) -> bool {
        self.0 <= o.0
    }
    fn zero() -> F {
        F(0.0)
    }
    fn one() -> F {
        F(1.0)
    }
    fn from_usize(n: usize) -> F {
        F(n as f64)
    }
}

#[test]
fn sigmoid_on_doubles_matches_formula() {
    let s = Sigmoid;
    let a: F = s.errors(F(0.5));
    assert_eq!(a, F(1.0 / (1.0 + (-0.5f64).exp())));
    let d: F = s.derivative(a);
    assert_eq!(d, F(a.0 * (1.0 - a.0)));
}

#[test]
fn sigmoid_on_integer_signals_thresholds() {
    let s = Sigmoid;
    let lo: i64 = s.errors(0);
    assert_eq!(lo, 0);
    let d: i64 = s.derivative(1);
    assert_eq!(d, 0);
}
