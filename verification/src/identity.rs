//! What identifies the volatility of a plan, and what a plan tells of itself.

use crate::bergomi::{scheme_of, Kernel};
use crate::compile_world::CompileWorld;
use crate::dividend_compiler::DividendCompiler;
use crate::fingerprint::{all_le_bytes, Message};
use crate::hw_plan::{bits_all, push_numbers};
use crate::models::Fingerprint;
use crate::plan::{StochasticDividendPrice, StochasticDividendPricingPlan};
use crate::reverse::DividendPath;
use crate::rough::RoughDividendKernel;
use crate::scalar::Scalar;
use vstd::prelude::*;
use vstd::string::*;

verus! {

/// A leverage surface, in the logarithm of the residual equity relative to where it
/// starts.
pub struct LsvLeverageSurface<R> {
    pub times: Vec<R>,
    pub log_nodes: Vec<R>,
    pub squared_leverage: Vec<R>,
    /// The residual equity that the surface starts from.
    pub initial_f: R,
}

/// What identifies a leverage surface.
pub open spec fn surface_message<R: Scalar, Z: CompileWorld<R>>(
    z: Z,
    s: LsvLeverageSurface<R>,
) -> Seq<u8> {
    "residual-lsv-squared-leverage-v1".spec_bytes() + all_le_bytes(
        bits_all(z, seq![s.initial_f]),
    ) + all_le_bytes(bits_all(z, s.times@)) + all_le_bytes(bits_all(z, s.log_nodes@))
        + all_le_bytes(bits_all(z, s.squared_leverage@))
}

/// What identifies the volatility factors of a path.
pub open spec fn kernel_message<R: Scalar, Z: CompileWorld<R>>(
    z: Z,
    k: Kernel<R, LsvLeverageSurface<R>>,
) -> Seq<u8> {
    scheme_of(k@.n(), k@.leverage is Some).spec_bytes() + all_le_bytes(
        bits_all(z, k@.identity),
    ) + (match k@.leverage {
        Some(s) => surface_message(z, s),
        None => Seq::empty(),
    })
}

impl<R: Scalar> Kernel<R, LsvLeverageSurface<R>> {
    /// Appends what identifies the volatility factors to a message.
    pub fn hash_parameters<Z: CompileWorld<R>>(&self, z: &Z, message: &mut Message)
        ensures
            final(message)@ == old(message)@ + kernel_message(*z, *self),
    {
        let ghost start = message@;
        message.push_text(self.scheme());
        push_numbers(z, message, &self.identity);
        let ghost named = scheme_of(self@.n(), self@.leverage is Some).spec_bytes() + all_le_bytes(
            bits_all(*z, self@.identity),
        );
        assert(message@ =~= start + named);
        match &self.leverage {
            None => {
                assert(named + Seq::empty() =~= named);
            },
            Some(s) => {
                message.push_text("residual-lsv-squared-leverage-v1");
                let first: Vec<R> = vec![s.initial_f];
                assert(first@ =~= seq![s.initial_f]);
                push_numbers(z, message, &first);
                push_numbers(z, message, &s.times);
                push_numbers(z, message, &s.log_nodes);
                push_numbers(z, message, &s.squared_leverage);
                assert(message@ =~= start + (named + surface_message(*z, *s)));
            },
        }
    }
}

/// The name of the scheme of a rough driver.
pub const ROUGH_SCHEME: &'static str = "buehler-rough-bergomi-joint-hybrid-positive-split-v1";

/// What identifies a rough driver.
pub open spec fn rough_message<R: Scalar, Z: CompileWorld<R>>(
    z: Z,
    k: RoughDividendKernel<R>,
) -> Seq<u8> {
    ROUGH_SCHEME.spec_bytes() + all_le_bytes(
        bits_all(
            z,
            seq![
                k.factor.hurst,
                k.factor.vol_of_vol,
                k.factor.correlation,
                k.dividend_volatility_correlation,
            ],
        ),
    )
}

impl<R: Scalar> RoughDividendKernel<R> {
    /// Appends what identifies the driver to a message.
    pub fn hash_parameters<Z: CompileWorld<R>>(&self, z: &Z, message: &mut Message)
        ensures
            final(message)@ == old(message)@ + rough_message(*z, *self),
    {
        let ghost start = message@;
        message.push_text(ROUGH_SCHEME);
        let parameters: Vec<R> = vec![
            self.factor.hurst,
            self.factor.vol_of_vol,
            self.factor.correlation,
            self.dividend_volatility_correlation,
        ];
        let ghost listed = seq![
            self.factor.hurst,
            self.factor.vol_of_vol,
            self.factor.correlation,
            self.dividend_volatility_correlation,
        ];
        assert(parameters@ =~= listed);
        push_numbers(z, message, &parameters);
        assert(message@ =~= start + rough_message(*z, *self));
    }
}

/// A text stands somewhere in another.
pub open spec fn contained(text: Seq<u8>, part: Seq<u8>) -> bool {
    exists|i: int|
        0 <= i && i + part.len() <= text.len() && #[trigger] text.subrange(i, i + part.len())
            == part
}

fn stands_at(text: &[u8], part: &[u8], at: usize) -> (b: bool)
    requires
        at + part@.len() <= text@.len(),
    ensures
        b == (text@.subrange(at as int, at + part@.len()) == part@),
{
    let size = text.len();
    let mut i: usize = 0;
    while i < part.len()
        invariant
            size == text@.len(),
            at + part@.len() <= size,
            i <= part@.len(),
            forall|k: int| 0 <= k < i ==> text@[at + k] == #[trigger] part@[k],
        decreases part@.len() - i,
    {
        if text[at + i] != part[i] {
            assert(text@.subrange(at as int, at + part@.len())[i as int] != part@[i as int]);
            return false;
        }
        i = i + 1;
    }
    assert(text@.subrange(at as int, at + part@.len()) =~= part@);
    true
}

fn contains_text(text: &str, part: &str) -> (b: bool)
    ensures
        b == contained(text.spec_bytes(), part.spec_bytes()),
{
    let t = text.as_bytes();
    let p = part.as_bytes();
    if p.len() > t.len() {
        return false;
    }
    let ends = t.len() - p.len();
    let mut i: usize = 0;
    while i < ends
        invariant
            t@ == text.spec_bytes(),
            p@ == part.spec_bytes(),
            p@.len() <= t@.len(),
            ends == t@.len() - p@.len(),
            i <= ends,
            forall|k: int| 0 <= k < i ==> #[trigger] t@.subrange(k, k + p@.len()) != p@,
        decreases ends - i,
    {
        if stands_at(t, p, i) {
            return true;
        }
        i = i + 1;
    }
    stands_at(t, p, ends)
}

impl<R> StochasticDividendPrice<R> {
    /// What the standard error covers: a price under a calibrated surface leaves out
    /// the uncertainty of the calibration.
    pub fn uncertainty_scope(&self) -> (s: &'static str)
        ensures
            s == (if contained(self.scheme.spec_bytes(), "residual-lsv".spec_bytes()) {
                "pricing_conditional_on_calibration"
            } else {
                "pricing_only"
            }),
    {
        if contains_text(self.scheme, "residual-lsv") {
            "pricing_conditional_on_calibration"
        } else {
            "pricing_only"
        }
    }
}

impl<R: Scalar, L> StochasticDividendPricingPlan<R, DividendPath<R, L>> {
    /// The digest of everything that determines the plan.
    pub fn plan_fingerprint(&self) -> (f: Fingerprint)
        ensures
            f == self.fingerprint,
    {
        self.fingerprint
    }

    /// The times of the nodes.
    pub fn time_nodes(&self) -> (v: &Vec<R>)
        ensures
            v@ == self.path@.times,
    {
        &self.path.times
    }

    /// The number of random factors.
    pub fn random_factor_count(&self) -> (n: usize)
        ensures
            n == self.job.factors,
    {
        self.job.factors
    }

    /// The residual equity that the path starts from.
    pub fn risky_spot<K: DividendCompiler<R, Surface = L>>(&self, k: &K) -> (x: R)
        ensures
            x == k.risky_spot_of(self.path),
    {
        k.risky_spot(&self.path)
    }

    /// The name of the scheme.
    pub fn scheme(&self) -> (s: &'static str)
        ensures
            s == self.scheme,
    {
        self.scheme
    }
}

/// The leverage surface of a path.
pub open spec fn surface_of<R>(path: DividendPath<R, LsvLeverageSurface<R>>) -> Option<
    LsvLeverageSurface<R>,
> {
    match path.bergomi {
        Some(k) => k.leverage,
        None => path.rough_leverage,
    }
}

impl<R: Scalar> StochasticDividendPricingPlan<R, DividendPath<R, LsvLeverageSurface<R>>> {
    fn surface(&self) -> (s: Option<&LsvLeverageSurface<R>>)
        ensures
            s is Some == surface_of(self.path) is Some,
            s matches Some(x) ==> surface_of(self.path) == Some(*x),
    {
        match &self.path.bergomi {
            Some(k) => match &k.leverage {
                Some(s) => Some(s),
                None => None,
            },
            None => self.path.rough_leverage.as_ref(),
        }
    }

    /// The times of the leverage surface, where there is one.
    pub fn lsv_time_nodes(&self) -> (v: Option<&Vec<R>>)
        ensures
            v is Some == surface_of(self.path) is Some,
            v matches Some(x) ==> x@ == surface_of(self.path)->0.times@,
    {
        match self.surface() {
            Some(s) => Some(&s.times),
            None => None,
        }
    }

    /// The log-moneyness of the leverage surface, where there is one.
    pub fn lsv_log_moneyness_nodes(&self) -> (v: Option<&Vec<R>>)
        ensures
            v is Some == surface_of(self.path) is Some,
            v matches Some(x) ==> x@ == surface_of(self.path)->0.log_nodes@,
    {
        match self.surface() {
            Some(s) => Some(&s.log_nodes),
            None => None,
        }
    }

    /// The entries of the leverage surface, squared, where there is one.
    pub fn lsv_squared_leverage(&self) -> (v: Option<&Vec<R>>)
        ensures
            v is Some == surface_of(self.path) is Some,
            v matches Some(x) ==> x@ == surface_of(self.path)->0.squared_leverage@,
    {
        match self.surface() {
            Some(s) => Some(&s.squared_leverage),
            None => None,
        }
    }

    /// The residual equity that the leverage surface starts from, where there is one.
    pub fn lsv_initial_residual_equity(&self) -> (x: Option<R>)
        ensures
            x == (match surface_of(self.path) {
                Some(s) => Some(s.initial_f),
                None => None,
            }),
    {
        match self.surface() {
            Some(s) => Some(s.initial_f),
            None => None,
        }
    }
}

/// The bytes of a text of plain characters are the characters.
proof fn plain_bytes(s: &str)
    requires
        forall|i: int| 0 <= i < s@.len() ==> '\0' <= #[trigger] s@[i] <= '\u{7f}',
    ensures
        s.spec_bytes().len() == s@.len(),
        forall|i: int| 0 <= i < s@.len() ==> #[trigger] s.spec_bytes()[i] == s@[i] as u8,
{
    broadcast use vstd::string::is_ascii_spec_bytes;

    assert(is_ascii(s));
}

/// The schemes with a leverage surface, and no others, are named as such: an error under
/// them is conditional on the calibration.
pub proof fn leverage_is_named(n: nat, lsv: bool)
    ensures
        contained(scheme_of(n, lsv).spec_bytes(), "residual-lsv".spec_bytes()) == lsv,
{
    reveal_strlit("residual-lsv");
    reveal_strlit("buehler-bergomi-1f-residual-lsv-joint-ou-positive-split-v1");
    reveal_strlit("buehler-bergomi-1f-joint-ou-positive-split-v1");
    reveal_strlit("buehler-bergomi-2f-residual-lsv-joint-ou-positive-split-v1");
    reveal_strlit("buehler-bergomi-2f-joint-ou-positive-split-v1");
    plain_bytes("residual-lsv");
    plain_bytes(scheme_of(n, lsv));
    let text = scheme_of(n, lsv).spec_bytes();
    let part = "residual-lsv".spec_bytes();
    if lsv {
        let at: int = 19;
        assert(text.subrange(at, at + part.len()) =~= part);
    } else {
        assert forall|i: int| 0 <= i
            && i + part.len() <= text.len() implies #[trigger] text.subrange(
                i,
                i + part.len(),
            ) != part by {
            assert(part[0] == 'r' as u8 && part[1] == 'e' as u8);
            if text.subrange(i, i + part.len()) == part {
                assert(text[i] == text.subrange(i, i + part.len())[0]);
                assert(text[i + 1] == text.subrange(i, i + part.len())[1]);
            }
        }
    }
}

} // verus!
