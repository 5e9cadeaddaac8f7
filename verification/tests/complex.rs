use contrafact::{
    and, brute, eq_, lens2, prism, EitherFact, Fact, Generator, LensFact, Retry, Target,
};
use rand::Rng;

fn noise() -> Vec<u8> {
    let mut rng = rand::thread_rng();
    std::iter::repeat_with(|| rng.gen()).take(1_000_000).collect()
}

type Id = u32;

// Similar to Holochain's DhtOp
#[derive(Clone, Debug, PartialEq)]
enum Omega {
    AlphaBeta { id: Id, alpha: Alpha, beta: Beta },
    Alpha { id: Id, alpha: Alpha },
}

impl Omega {
    fn id(&self) -> &Id {
        match self {
            Self::AlphaBeta { id, .. } => id,
            Self::Alpha { id, .. } => id,
        }
    }

    fn id_mut(&mut self) -> &mut Id {
        match self {
            Self::AlphaBeta { id, .. } => id,
            Self::Alpha { id, .. } => id,
        }
    }
}

// Similar to Holochain's Action
#[derive(Clone, Debug, PartialEq)]
enum Alpha {
    Beta { id: Id, beta: Beta, data: String },
    Nil { id: Id, data: String },
}

impl Alpha {
    fn id(&mut self) -> &mut Id {
        match self {
            Self::Beta { id, .. } => id,
            Self::Nil { id, .. } => id,
        }
    }
}

// Similar to Holochain's Entry
#[derive(Clone, Debug, PartialEq)]
struct Beta {
    id: u32,
    data: String,
}

#[derive(Clone, Debug, PartialEq)]
/// Similar to Holochain's SignedActionHashed
struct Sigma {
    alpha: Alpha,
    id2: Id,
    sig: String,
}

#[derive(Clone, Debug, PartialEq)]
/// Similar to Holochain's Record
struct Rho {
    sigma: Sigma,
    beta: Option<Beta>,
}

/// Just a pair of an Alpha with optional Beta.
#[derive(Clone, Debug, PartialEq)]
struct Pi(Alpha, Option<Beta>);

impl Target for Beta {
    type Model = ();

    fn arbitrary(u: &mut arbitrary::Unstructured<'_>) -> Result<Self, arbitrary::Error> {
        Ok(Beta { id: <u32 as Target>::arbitrary(u)?, data: <String as Target>::arbitrary(u)? })
    }

    fn same(&self, other: &Self) -> bool {
        self == other
    }

    fn copy(&self) -> Self {
        self.clone()
    }

    fn render(&self) -> String {
        format!("{:?}", self)
    }
}

impl Target for Alpha {
    type Model = ();

    fn arbitrary(u: &mut arbitrary::Unstructured<'_>) -> Result<Self, arbitrary::Error> {
        Ok(if <bool as Target>::arbitrary(u)? {
            Alpha::Beta {
                id: <u32 as Target>::arbitrary(u)?,
                beta: <Beta as Target>::arbitrary(u)?,
                data: <String as Target>::arbitrary(u)?,
            }
        } else {
            Alpha::Nil {
                id: <u32 as Target>::arbitrary(u)?,
                data: <String as Target>::arbitrary(u)?,
            }
        })
    }

    fn same(&self, other: &Self) -> bool {
        self == other
    }

    fn copy(&self) -> Self {
        self.clone()
    }

    fn render(&self) -> String {
        format!("{:?}", self)
    }
}

impl Target for Omega {
    type Model = ();

    fn arbitrary(u: &mut arbitrary::Unstructured<'_>) -> Result<Self, arbitrary::Error> {
        Ok(if <bool as Target>::arbitrary(u)? {
            Omega::AlphaBeta {
                id: <u32 as Target>::arbitrary(u)?,
                alpha: <Alpha as Target>::arbitrary(u)?,
                beta: <Beta as Target>::arbitrary(u)?,
            }
        } else {
            Omega::Alpha {
                id: <u32 as Target>::arbitrary(u)?,
                alpha: <Alpha as Target>::arbitrary(u)?,
            }
        })
    }

    fn same(&self, other: &Self) -> bool {
        self == other
    }

    fn copy(&self) -> Self {
        self.clone()
    }

    fn render(&self) -> String {
        format!("{:?}", self)
    }
}

impl Target for Sigma {
    type Model = ();

    fn arbitrary(u: &mut arbitrary::Unstructured<'_>) -> Result<Self, arbitrary::Error> {
        Ok(Sigma {
            alpha: <Alpha as Target>::arbitrary(u)?,
            id2: <u32 as Target>::arbitrary(u)?,
            sig: <String as Target>::arbitrary(u)?,
        })
    }

    fn same(&self, other: &Self) -> bool {
        self == other
    }

    fn copy(&self) -> Self {
        self.clone()
    }

    fn render(&self) -> String {
        format!("{:?}", self)
    }
}

impl Target for Rho {
    type Model = ();

    fn arbitrary(u: &mut arbitrary::Unstructured<'_>) -> Result<Self, arbitrary::Error> {
        Ok(Rho {
            sigma: <Sigma as Target>::arbitrary(u)?,
            beta: <Option<Beta> as Target>::arbitrary(u)?,
        })
    }

    fn same(&self, other: &Self) -> bool {
        self == other
    }

    fn copy(&self) -> Self {
        self.clone()
    }

    fn render(&self) -> String {
        format!("{:?}", self)
    }
}

impl Target for Pi {
    type Model = ();

    fn arbitrary(u: &mut arbitrary::Unstructured<'_>) -> Result<Self, arbitrary::Error> {
        Ok(Pi(<Alpha as Target>::arbitrary(u)?, <Option<Beta> as Target>::arbitrary(u)?))
    }

    fn same(&self, other: &Self) -> bool {
        self == other
    }

    fn copy(&self) -> Self {
        self.clone()
    }

    fn render(&self) -> String {
        format!("{:?}", self)
    }
}

/// Some struct needed to set the values of a Sigma whenever its Alpha changes.
/// Analogous to Holochain's Keystore (MetaLairClient).
#[derive(Clone, Copy)]
struct AlphaSigner;

impl AlphaSigner {
    fn sign(&self, mut alpha: Alpha) -> Sigma {
        Sigma { id2: alpha.id().clone() * 2, sig: alpha.id().to_string(), alpha }
    }
}

fn alpha_id(mut a: Alpha) -> Id {
    *a.id()
}

fn set_alpha_id(mut a: Alpha, id: Id) -> Alpha {
    *a.id() = id;
    a
}

fn beta_fact() -> impl Fact<Beta> {
    lens2(
        "Beta::id",
        |b: Beta| b.id,
        |mut b: Beta, id: Id| {
            b.id = id;
            b
        },
        id_fact(None),
    )
}

fn pi_beta_match() -> impl Fact<Pi> {
    brute("Pi alpha has matching beta iff beta is Some", |p: &Pi| match p {
        Pi(Alpha::Beta { beta, .. }, Some(b)) => beta == b,
        Pi(Alpha::Nil { .. }, None) => true,
        _ => false,
    })
}

fn id_fact(id: Option<Id>) -> impl Fact<Id> {
    let le = || brute("< u32::MAX", |id: &Id| *id < Id::MAX / 2);

    if let Some(id) = id {
        EitherFact::Left(and(le(), eq_(id)))
    } else {
        EitherFact::Right(le())
    }
}

/// - id must be set as specified
/// - All Ids should match each other. If there is a Beta, its id should match too.
fn pi_fact(id: Id) -> impl Fact<Pi> {
    let alpha_fact = lens2("Alpha::id", alpha_id, set_alpha_id, id_fact(Some(id)));
    let beta_fact = lens2(
        "Beta::id",
        |b: Beta| b.id,
        |mut b: Beta, id: Id| {
            b.id = id;
            b
        },
        id_fact(Some(id)),
    );
    and(
        and(
            pi_beta_match(),
            lens2(
                "Pi::alpha",
                |o: Pi| o.0,
                |mut o: Pi, a: Alpha| {
                    o.0 = a;
                    o
                },
                alpha_fact,
            ),
        ),
        prism(
            "Pi::beta",
            |o: Pi| o.1,
            |mut o: Pi, b: Beta| {
                o.1 = Some(b);
                o
            },
            beta_fact,
        ),
    )
}

/// - All Ids should match each other. If there is a Beta, its id should match too
/// - If Omega::Alpha,     then Alpha::Nil.
/// - If Omega::AlphaBeta, then Alpha::Beta,
///     - and, the the Betas of the Alpha and the Omega should match.
/// - all data must be set as specified
fn omega_fact(id: Id) -> impl Fact<Omega> {
    let omega_pi = LensFact::new(
        "Omega -> Pi",
        |o: Omega| match o {
            Omega::AlphaBeta { alpha, beta, .. } => Pi(alpha, Some(beta)),
            Omega::Alpha { alpha, .. } => Pi(alpha, None),
        },
        |o: Omega, pi: Pi| {
            let id = o.id().clone();
            match pi {
                Pi(alpha, Some(beta)) => Omega::AlphaBeta { id, alpha, beta },
                Pi(alpha, None) => Omega::Alpha { id, alpha },
            }
        },
        pi_fact(id),
    );

    and(
        omega_pi,
        lens2(
            "Omega::id",
            |o: Omega| *o.id(),
            |mut o: Omega, id: Id| {
                *o.id_mut() = id;
                o
            },
            id_fact(Some(id)),
        ),
    )
}

fn sigma_fact() -> impl Fact<Sigma> {
    let id2_fact = LensFact::new(
        "Sigma::id is correct",
        |mut s: Sigma| (s.id2, *(s.alpha.id()) * 2),
        |mut s: Sigma, (_, id2): (Id, Id)| {
            s.id2 = id2;
            s
        },
        contrafact::same(),
    );
    and(
        lens2(
            "Sigma::id",
            |mut o: Sigma| *o.alpha.id(),
            |mut o: Sigma, id: Id| {
                *o.alpha.id() = id;
                o
            },
            id_fact(None),
        ),
        id2_fact,
    )
}

/// The inner Sigma is correct wrt to signature
fn rho_fact(id: Id, signer: AlphaSigner) -> impl Fact<Rho> {
    let rho_pi = LensFact::new(
        "Rho -> Pi",
        |rho: Rho| Pi(rho.sigma.alpha, rho.beta),
        move |mut rho: Rho, Pi(a, b): Pi| {
            rho.sigma = signer.sign(a);
            rho.beta = b;
            rho
        },
        pi_fact(id),
    );

    and(
        lens2(
            "Rho -> Sigma",
            |rho: Rho| rho.sigma,
            |mut rho: Rho, sigma: Sigma| {
                rho.sigma = sigma;
                rho
            },
            sigma_fact(),
        ),
        rho_pi,
    )
}

#[test]
fn test_rho_fact() {
    let bytes = noise();
    let mut g = Generator::from(&bytes);

    let fact = || rho_fact(5, AlphaSigner);
    let mut rho = fact().build_fallible(&mut g).unwrap();
    assert!(fact().check(&rho).is_ok());
    assert_eq!(rho.sigma.id2, 10);
    assert_eq!(rho.sigma.sig, "5".to_string());

    rho.sigma.id2 = 9;
    assert!(fact().check(&rho).is_err());
}

#[test]
fn test_omega_fact() {
    let bytes = noise();
    let mut g = Generator::from(&bytes);

    let fact = omega_fact(11);

    let beta = beta_fact().build_fallible(&mut g).unwrap();

    let mut valid1 = Omega::Alpha { id: 8, alpha: Alpha::Nil { id: 3, data: "cheese".into() } };

    let mut valid2 = Omega::AlphaBeta {
        id: 8,
        alpha: Alpha::Nil { id: 3, data: "cheese".into() },
        beta: beta.clone(),
    };

    valid1 = fact.mutate(&mut g, valid1).unwrap();
    fact.check(&valid1).unwrap();

    valid2 = fact.mutate(&mut g, valid2).unwrap();
    fact.check(&valid2).unwrap();

    let mut invalid1 = Omega::Alpha {
        id: 8,
        alpha: Alpha::Beta { id: 3, data: "cheese".into(), beta: beta.clone() },
    };

    let mut invalid2 = Omega::AlphaBeta {
        id: 8,
        alpha: Alpha::Nil { id: 3, data: "cheese".into() },
        beta: beta.clone(),
    };

    // Ensure that check fails for invalid data
    assert!(fact.check(&invalid1).result().unwrap().unwrap_err().len() > 0);
    invalid1 = fact.mutate(&mut g, invalid1).unwrap();
    fact.check(&invalid1).unwrap();

    // Ensure that check fails for invalid data
    assert!(fact.check(&invalid2).result().unwrap().unwrap_err().len() > 0);
    invalid2 = fact.mutate(&mut g, invalid2).unwrap();
    fact.check(&invalid2).unwrap();
}
