use build_fs_tree::FileSystemTree;
use parallel_disk_usage::size::Bytes;
use parallel_disk_usage::tree_builder::{Info, Tree, TreeBuilder};

type SampleData = Bytes;
type SampleId = String;
const SAMPLE_SEPARATOR: char = '/';

fn sample_dir_size() -> SampleData {
    Bytes::new(5)
}

fn len(text: &str) -> SampleData {
    SampleData::new(text.len() as u64)
}

type SampleFs = FileSystemTree<String, &'static str>;

fn dir(entries: Vec<(&str, SampleFs)>) -> SampleFs {
    FileSystemTree::Directory(
        entries
            .into_iter()
            .map(|(name, node)| (name.to_string(), node))
            .collect(),
    )
}

fn file(content: &'static str) -> SampleFs {
    FileSystemTree::File(content)
}

struct SampleTree(SampleFs);

impl SampleTree {
    fn create_sample() -> Self {
        SampleTree(dir(vec![
            (
                "flat",
                dir(vec![
                    ("0", file("")),
                    ("1", file("a")),
                    ("2", file("ab")),
                    ("3", file("abc")),
                ]),
            ),
            ("nested", dir(vec![("0", dir(vec![("1", file("abcdef"))]))])),
            ("empty-dir", dir(vec![])),
        ]))
    }

    fn tree(&self, id: SampleId) -> Tree<SampleId, SampleData> {
        TreeBuilder {
            id,
            get_info: |path: &String| {
                let path: Vec<_> = path
                    .split(SAMPLE_SEPARATOR)
                    .map(ToString::to_string)
                    .collect();
                let mut path = path.iter();
                match self.0.path(&mut path) {
                    Some(FileSystemTree::File(content)) => Info::from((len(content), Vec::new())),
                    Some(FileSystemTree::Directory(content)) => Info::from((
                        sample_dir_size(),
                        content.keys().map(ToString::to_string).collect(),
                    )),
                    None => panic!("Path does not exist"),
                }
            },
            join_path: |prefix: &String, name: &String| {
                format!("{}{}{}", prefix, SAMPLE_SEPARATOR, name)
            },
        }
        .build()
    }
}

#[test]
fn flat() {
    let actual = SampleTree::create_sample().tree("flat".to_string());
    let expected = Tree {
        id: "flat".to_string(),
        data: len("") + len("a") + len("ab") + len("abc") + sample_dir_size(),
        children: vec![
            Tree {
                id: "flat/0".to_string(),
                data: len(""),
                children: Vec::new(),
            },
            Tree {
                id: "flat/1".to_string(),
                data: len("a"),
                children: Vec::new(),
            },
            Tree {
                id: "flat/2".to_string(),
                data: len("ab"),
                children: Vec::new(),
            },
            Tree {
                id: "flat/3".to_string(),
                data: len("abc"),
                children: Vec::new(),
            },
        ],
    };
    assert_eq!(actual, expected);
}

#[test]
fn nested() {
    let actual = SampleTree::create_sample().tree("nested".to_string());
    let expected = Tree {
        id: "nested".to_string(),
        data: len("abcdef") + sample_dir_size() + sample_dir_size(),
        children: vec![Tree {
            id: "nested/0".to_string(),
            data: len("abcdef") + sample_dir_size(),
            children: vec![Tree {
                id: "nested/0/1".to_string(),
                data: len("abcdef"),
                children: Vec::new(),
            }],
        }],
    };
    assert_eq!(actual, expected);
}

#[test]
fn empty_dir() {
    let actual = SampleTree::create_sample().tree("empty-dir".to_string());
    let expected = Tree {
        id: "empty-dir".to_string(),
        data: sample_dir_size(),
        children: Vec::new(),
    };
    assert_eq!(actual, expected);
}

#[test]
fn flat_sizes_exact() {
    let actual = SampleTree::create_sample().tree("flat".to_string());
    assert_eq!(actual.data, Bytes::new(11));
    let sizes: Vec<u64> = actual.children.iter().map(|c| c.data.inner()).collect();
    assert_eq!(sizes, vec![0, 1, 2, 3]);
}

#[test]
fn nested_sizes_exact() {
    let actual = SampleTree::create_sample().tree("nested".to_string());
    assert_eq!(actual.data.inner(), 16);
    assert_eq!(actual.children[0].data.inner(), 11);
    assert_eq!(actual.children[0].children[0].data.inner(), 6);
}

#[test]
fn children_follow_reported_order() {
    let tree = TreeBuilder {
        id: "r".to_string(),
        get_info: |path: &String| {
            if path == "r" {
                Info::from((
                    Bytes::new(1),
                    vec!["z".to_string(), "a".to_string(), "m".to_string()],
                ))
            } else {
                Info::from((Bytes::new(path.len() as u64), Vec::new()))
            }
        },
        join_path: |prefix: &String, name: &String| format!("{}/{}", prefix, name),
    }
    .build();
    let ids: Vec<&str> = tree.children.iter().map(|c| c.id.as_str()).collect();
    assert_eq!(ids, vec!["r/z", "r/a", "r/m"]);
    assert_eq!(tree.data.inner(), 1 + 3 + 3 + 3);
}

#[test]
fn aggregate_saturates() {
    let tree = TreeBuilder {
        id: 0u32,
        get_info: |id: &u32| {
            if *id == 0 {
                Info::from((Bytes::new(u64::MAX - 1), vec![1u32, 2u32]))
            } else {
                Info::from((Bytes::new(7), Vec::new()))
            }
        },
        join_path: |_prefix: &u32, name: &u32| *name,
    }
    .build();
    assert_eq!(tree.data.inner(), u64::MAX);
    assert_eq!(tree.children.len(), 2);
}

#[test]
fn info_from_pair() {
    let info: Info<String, Bytes> = Info::from((Bytes::new(9), vec!["x".to_string()]));
    assert_eq!(info.data, Bytes::new(9));
    assert_eq!(info.children, vec!["x".to_string()]);
}
