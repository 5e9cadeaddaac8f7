use contrafact::{
    and, consecutive_int, eq, in_slice, lens2, sized_seq, Fact, Generator, Retry, Target,
};
use rand::Rng;

fn noise() -> Vec<u8> {
    let mut rng = rand::thread_rng();
    std::iter::repeat_with(|| rng.gen()).take(100_000).collect()
}

#[derive(Debug, Clone, PartialEq, Eq, Hash)]
enum Color {
    Cyan,
    Magenta,
    Yellow,
    Black,
}

impl Target for Color {
    type Model = ();

    fn arbitrary(u: &mut arbitrary::Unstructured<'_>) -> Result<Self, arbitrary::Error> {
        Ok(match <u8 as Target>::arbitrary(u)? % 4 {
            0 => Color::Cyan,
            1 => Color::Magenta,
            2 => Color::Yellow,
            _ => Color::Black,
        })
    }

    fn same(&self, other: &Self) -> bool {
        self == other
    }

    fn copy(&self) -> Self {
        self.clone()
    }

    fn render(&self) -> String {
        format!("{:?}", self)
    }
}

#[derive(Debug, PartialEq, Clone)]
struct Link {
    prev: u32,
    author: String,
}

impl Target for Link {
    type Model = ();

    fn arbitrary(u: &mut arbitrary::Unstructured<'_>) -> Result<Self, arbitrary::Error> {
        Ok(Link { prev: <u32 as Target>::arbitrary(u)?, author: <String as Target>::arbitrary(u)? })
    }

    fn same(&self, other: &Self) -> bool {
        self == other
    }

    fn copy(&self) -> Self {
        self.clone()
    }

    fn render(&self) -> String {
        format!("{:?}", self)
    }
}

#[derive(Debug, PartialEq, Clone)]
struct Wrapper {
    color: Color,
    link: Link,
}

impl Target for Wrapper {
    type Model = ();

    fn arbitrary(u: &mut arbitrary::Unstructured<'_>) -> Result<Self, arbitrary::Error> {
        Ok(Wrapper {
            color: <Color as Target>::arbitrary(u)?,
            link: <Link as Target>::arbitrary(u)?,
        })
    }

    fn same(&self, other: &Self) -> bool {
        self == other
    }

    fn copy(&self) -> Self {
        self.clone()
    }

    fn render(&self) -> String {
        format!("{:?}", self)
    }
}

/// Fact: all Links in a chain are by the same `author`, and any chain link has
/// consecutive `prev` values starting with 0.
fn chain_fact(author: String) -> impl Fact<Link> {
    and(
        lens2(
            "Link::author",
            |o: Link| o.author,
            |mut o: Link, author: String| {
                o.author = author;
                o
            },
            eq("same author", author),
        ),
        lens2(
            "Link::prev",
            |o: Link| o.prev,
            |mut o: Link, prev: u32| {
                o.prev = prev;
                o
            },
            consecutive_int("increasing prev", 0),
        ),
    )
}

/// Fact: the Links within each wrapper form a valid chain, and the color
/// of the wrapper is in the given set.
fn wrapper_fact<'a>(author: String, valid_colors: &'a [Color]) -> impl Fact<Wrapper> + 'a {
    and(
        lens2(
            "Wrapper::color",
            |o: Wrapper| o.color,
            |mut o: Wrapper, color: Color| {
                o.color = color;
                o
            },
            in_slice("valid color", valid_colors),
        ),
        lens2(
            "Wrapper::link",
            |o: Wrapper| o.link,
            |mut o: Wrapper, link: Link| {
                o.link = link;
                o
            },
            chain_fact(author),
        ),
    )
}

#[test]
fn test_link() {
    let bytes = noise();
    let mut g = Generator::from(&bytes);

    const NUM: u32 = 10;
    let author = "alice".to_string();
    let fact = move || sized_seq(NUM as usize, chain_fact(author.clone()));

    let chain = fact().build_fallible(&mut g).unwrap();
    fact().check(&chain).unwrap();

    assert!(chain.iter().all(|c| c.author == "alice"));
    assert_eq!(chain.iter().last().unwrap().prev, NUM - 1);
}

#[test]
fn test_wrapper() {
    let bytes = noise();
    let mut g = Generator::from(&bytes);

    const NUM: u32 = 10;
    let author = "alice".to_string();
    let colors = [Color::Cyan, Color::Magenta];
    let fact = || sized_seq(NUM as usize, wrapper_fact(author.clone(), &colors));

    let chain = fact().build_fallible(&mut g).unwrap();
    fact().check(&chain).unwrap();

    assert!(chain.iter().all(|c| c.link.author == "alice"));
    assert!(chain.iter().all(|c| c.color != Color::Black));
    assert_eq!(chain.iter().last().unwrap().link.prev, NUM - 1);

    // there is a high probability that this will be true
    assert!(chain.iter().any(|c| c.color == Color::Magenta));
}

#[derive(Debug, PartialEq, Clone)]
struct ChainLink {
    prev: u32,
    author: String,
    color: Color,
}

impl Target for ChainLink {
    type Model = ();

    fn arbitrary(u: &mut arbitrary::Unstructured<'_>) -> Result<Self, arbitrary::Error> {
        Ok(ChainLink {
            prev: <u32 as Target>::arbitrary(u)?,
            author: <String as Target>::arbitrary(u)?,
            color: <Color as Target>::arbitrary(u)?,
        })
    }

    fn same(&self, other: &Self) -> bool {
        self == other
    }

    fn copy(&self) -> Self {
        self.clone()
    }

    fn render(&self) -> String {
        format!("{:?}", self)
    }
}

fn link_fact<'a>(author: String, valid_colors: &'a [Color]) -> impl Fact<ChainLink> + 'a {
    let same_author = lens2(
        "author",
        |o: ChainLink| o.author,
        |mut o: ChainLink, author: String| {
            o.author = author;
            o
        },
        eq("same author", author),
    );
    let backlinks = lens2(
        "prev",
        |o: ChainLink| o.prev,
        |mut o: ChainLink, prev: u32| {
            o.prev = prev;
            o
        },
        consecutive_int("backlink", 0),
    );
    let color = lens2(
        "color",
        |o: ChainLink| o.color,
        |mut o: ChainLink, color: Color| {
            o.color = color;
            o
        },
        in_slice("valid color", valid_colors),
    );
    and(and(same_author, backlinks), color)
}

#[test]
fn tests_test() {
    const NUM: u32 = 10;
    let colors = [Color::Cyan, Color::Magenta];
    let bytes = noise();
    let mut g = Generator::from(&bytes);

    let chain =
        contrafact::build_seq(&mut g, NUM as usize, link_fact("alice".into(), &colors)).unwrap();
    contrafact::check_seq(chain.as_slice(), link_fact("alice".into(), &colors)).unwrap();

    assert!(chain.iter().all(|c| c.author == "alice"));
    assert!(chain.iter().all(|c| c.color != Color::Black));
    assert_eq!(chain.iter().last().unwrap().prev, NUM - 1);

    // there is a high probability that this will be true
    assert!(chain.iter().any(|c| c.color == Color::Magenta));
}
