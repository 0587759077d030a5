use futurecommander::kind::Kind;
use futurecommander::path::FsPath;
use futurecommander::representation::{VirtualChildren, VirtualDelta, VirtualPath};

fn p(s: &str) -> FsPath {
    FsPath::new(s)
}

#[test]
fn attach_child_to_root_then_find_it_in_children() {
    let mut delta = VirtualDelta::default();
    let path = VirtualPath::from_str("/virtual/path").unwrap();

    delta.attach(path.as_identity(), None, Kind::Directory).unwrap();

    let children = delta.children(&p("/virtual")).unwrap();
    assert!(path.as_identity().same(children.get(&path).unwrap().as_identity()));
}

#[test]
fn is_consistent_over_async() {
    let mut delta = VirtualDelta::default();

    let child = p("/virtual/path");
    delta.attach(&child, None, Kind::File).unwrap();

    let parent = p("/virtual");
    delta.attach(&parent, None, Kind::Directory).unwrap();

    let children = delta.children(&parent).unwrap();
    let owned_child = children.get(&VirtualPath::from_path(&child).unwrap()).unwrap();
    assert!(child.same(owned_child.as_identity()));
}

#[test]
fn add_a_delta_to_another() {
    let mut delta_r = VirtualDelta::default();
    delta_r.attach(&p("/R/to_replace"), None, Kind::Directory).unwrap();
    delta_r.attach(&p("/R/to_not_change"), None, Kind::File).unwrap();
    delta_r.attach(&p("/R/to_complete"), None, Kind::Directory).unwrap();

    let mut delta_ra = VirtualDelta::default();
    delta_ra.attach(&p("/R/to_replace/A"), None, Kind::Directory).unwrap();
    delta_ra.attach(&p("/R/to_not_change"), None, Kind::File).unwrap();
    delta_ra.attach(&p("/R/to_complete/B"), None, Kind::File).unwrap();

    let delta_r_prime = delta_r.add(&delta_ra).unwrap();
    assert!(delta_r_prime.is_directory(&p("/R/to_replace")).unwrap());
    assert!(delta_r_prime.is_directory(&p("/R/to_complete")).unwrap());
    assert!(!delta_r_prime.is_directory(&p("/R/to_not_change")).unwrap());
    assert!(delta_r_prime.get(&p("/R/to_replace/A")).unwrap().is_some());
    assert!(delta_r_prime.get(&p("/R/to_complete/B")).unwrap().is_some());
}

#[test]
fn substract_a_delta_from_another() {
    let mut delta_r = VirtualDelta::default();
    delta_r.attach(&p("/R/to_remove"), None, Kind::Directory).unwrap();
    delta_r.attach(&p("/R/to_not_change"), None, Kind::File).unwrap();
    delta_r.attach(&p("/R/to_not_change_dir"), None, Kind::Directory).unwrap();
    delta_r.attach(&p("/R/to_not_change_dir/to_remove"), None, Kind::File).unwrap();

    let mut delta_rs = VirtualDelta::default();
    delta_rs.attach(&p("/R/to_remove"), None, Kind::Directory).unwrap();
    delta_rs.attach(&p("/R/to_not_change_dir/to_remove"), None, Kind::File).unwrap();

    let delta_r_prime = delta_r.sub(&delta_rs).unwrap();

    assert!(!delta_r_prime.is_directory(&p("/R/to_not_change")).unwrap());
    assert!(delta_r_prime.is_directory(&p("/R/to_not_change_dir")).unwrap());
    assert!(!delta_r_prime.get(&p("/R/to_remove")).unwrap().is_some());
    assert!(!delta_r_prime.get(&p("/R/to_not_change_dir/to_remove")).unwrap().is_some());
}

#[test]
fn walk() {
    let mut delta = VirtualDelta::default();
    delta.attach(&p("/R"), None, Kind::Directory).unwrap();
    delta.attach(&p("/R/to_replace"), None, Kind::Directory).unwrap();
    delta.attach(&p("/R/to_not_change"), None, Kind::File).unwrap();
    delta.attach(&p("/R/to_complete"), None, Kind::Directory).unwrap();
    delta.attach(&p("/R/to_complete/D"), None, Kind::Directory).unwrap();
    delta.attach(&p("/R/to_complete/E"), None, Kind::Directory).unwrap();

    let mut collection = VirtualChildren::new();
    delta.walk(&mut collection, &p("/R")).unwrap();
    assert!(collection.contains(&VirtualPath::from_str("/R").unwrap()));
    assert!(collection.contains(&VirtualPath::from_str("/R/to_replace").unwrap()));
    assert!(collection.contains(&VirtualPath::from_str("/R/to_not_change").unwrap()));
    assert!(collection.contains(&VirtualPath::from_str("/R/to_complete").unwrap()));
    assert!(collection.contains(&VirtualPath::from_str("/R/to_complete/D").unwrap()));
    assert!(collection.contains(&VirtualPath::from_str("/R/to_complete/E").unwrap()));
}

#[test]
fn attach_detach_idempotent() {
    let mut delta = VirtualDelta::default();
    delta.attach(&p("/R"), None, Kind::Directory).unwrap();
    delta.attach(&p("/R/to_replace"), None, Kind::Directory).unwrap();
    delta.attach(&p("/R/to_not_change"), None, Kind::File).unwrap();
    delta.attach(&p("/R/to_complete"), None, Kind::Directory).unwrap();
    delta.attach(&p("/R/to_complete/D"), None, Kind::Directory).unwrap();
    delta.attach(&p("/R/to_complete/E"), None, Kind::Directory).unwrap();

    delta.detach(&p("/R/to_complete/E")).unwrap();
    delta.detach(&p("/R/to_complete/D")).unwrap();
    delta.detach(&p("/R/to_complete")).unwrap();
    delta.detach(&p("/R/to_not_change")).unwrap();
    delta.detach(&p("/R/to_replace")).unwrap();
    delta.detach(&p("/R")).unwrap();

    assert!(delta.is_empty());
}

#[test]
fn commute_file_into_dir() {
    let mut delta = VirtualDelta::default();
    delta.attach(&p("/A"), None, Kind::Directory).unwrap();
    delta.attach(&p("/B"), None, Kind::File).unwrap();

    assert_eq!(delta.get(&p("/A")).unwrap().unwrap().to_kind(), Kind::Directory);
    assert_eq!(delta.get(&p("/B")).unwrap().unwrap().to_kind(), Kind::File);

    delta.attach(&p("/C"), None, Kind::Directory).unwrap();
    delta.detach(&p("/A")).unwrap();
    delta.attach(&p("/A"), None, Kind::File).unwrap();
    delta.detach(&p("/B")).unwrap();
    delta.attach(&p("/B"), None, Kind::Directory).unwrap();
    delta.detach(&p("/C")).unwrap();

    assert_eq!(delta.get(&p("/A")).unwrap().unwrap().to_kind(), Kind::File);
    assert_eq!(delta.get(&p("/B")).unwrap().unwrap().to_kind(), Kind::Directory);
    assert!(delta.get(&p("/C")).unwrap().is_none());
}

#[test]
fn generate_sub_delta() {
    let mut delta = VirtualDelta::default();
    delta.attach(&p("/A"), None, Kind::Directory).unwrap();
    delta.attach(&p("/B"), None, Kind::Directory).unwrap();
    delta.attach(&p("/B/C"), None, Kind::Directory).unwrap();
    delta.attach(&p("/B/D"), None, Kind::File).unwrap();

    let sub_delta = delta.sub_delta(&p("/B")).unwrap().unwrap();

    assert!(sub_delta.get(&p("/B/C")).unwrap().is_some());
    assert_eq!(sub_delta.get(&p("/B/C")).unwrap().unwrap().to_kind(), Kind::Directory);
    assert!(sub_delta.get(&p("/B/D")).unwrap().is_some());
    assert_eq!(sub_delta.get(&p("/B/D")).unwrap().unwrap().to_kind(), Kind::File);
    assert!(sub_delta.get(&p("/A")).unwrap().is_none());
}

#[test]
fn attach_then_get_gives_the_node_back() {
    let mut delta = VirtualDelta::default();
    delta.attach(&p("/X/Y"), Some(&p("/S")), Kind::File).unwrap();
    let node = delta.get(&p("/X/Y")).unwrap().unwrap();
    assert!(node.as_identity().same(&p("/X/Y")));
    assert!(node.as_source().unwrap().same(&p("/S")));
    assert_eq!(node.to_kind(), Kind::File);
    delta.detach(&p("/X/Y")).unwrap();
    assert!(delta.get(&p("/X/Y")).unwrap().is_none());
    assert!(delta.is_empty());
}

#[test]
fn attach_twice_is_refused() {
    let mut delta = VirtualDelta::default();
    delta.attach(&p("/A"), None, Kind::Directory).unwrap();
    assert!(delta.attach(&p("/A"), None, Kind::Directory).is_err());
}

#[test]
fn attach_under_a_file_is_refused() {
    let mut delta = VirtualDelta::default();
    delta.attach(&p("/A"), None, Kind::File).unwrap();
    assert!(delta.attach(&p("/A/B"), None, Kind::File).is_err());
}

#[test]
fn detach_what_is_not_there_is_refused() {
    let mut delta = VirtualDelta::default();
    assert!(delta.detach(&p("/A")).is_err());
}

#[test]
fn relative_path_is_refused() {
    assert!(VirtualPath::from_str("relative/path").is_err());
}

#[test]
fn resolve_follows_the_source_of_a_virtual_ancestor() {
    let mut delta = VirtualDelta::default();
    delta.attach(&p("/COPY"), Some(&p("/REAL")), Kind::Directory).unwrap();
    let resolved = delta.resolve(&p("/COPY/a/b")).unwrap().unwrap();
    assert!(resolved.same(&p("/REAL/a/b")));
    assert!(delta.is_virtual(&p("/COPY/a")).unwrap());
    assert!(!delta.is_virtual(&p("/OTHER")).unwrap());
    let (depth, ancestor) = delta.first_virtual_ancestor(&p("/COPY/a/b")).unwrap().unwrap();
    assert_eq!(depth, 2);
    assert!(ancestor.as_identity().same(&p("/COPY")));
}

#[test]
fn remove_nth_parents_goes_up() {
    let q = VirtualDelta::remove_nth_parents(&p("/a/b/c"), 2);
    assert!(q.same(&p("/a")));
}

#[test]
fn directory_is_empty_after_its_children_leave() {
    let mut delta = VirtualDelta::default();
    delta.attach(&p("/D"), None, Kind::Directory).unwrap();
    delta.attach(&p("/D/x"), None, Kind::File).unwrap();
    assert!(!delta.is_directory_empty(&p("/D")));
    delta.detach(&p("/D/x")).unwrap();
    assert!(delta.is_directory_empty(&p("/D")));
}

#[test]
fn deltas_that_agree_stay_in_agreement_after_the_same_attach() {
    let mut left = VirtualDelta::default();
    left.attach(&p("/A"), None, Kind::Directory).unwrap();
    left.attach(&p("/B"), Some(&p("/S")), Kind::File).unwrap();
    let mut right = VirtualDelta::default();
    right.attach(&p("/B"), Some(&p("/S")), Kind::File).unwrap();
    right.attach(&p("/A"), None, Kind::Directory).unwrap();

    let node = VirtualPath::from(p("/A/C"), Some(p("/T")), Kind::File).unwrap();
    let r1 = left.attach_virtual(&node);
    let r2 = right.attach(&p("/A/C"), Some(&p("/T")), Kind::File);
    assert_eq!(r1.is_ok(), r2.is_ok());

    for path in ["/A", "/B", "/A/C", "/C", "/A/C/D"] {
        let l = left.get(&p(path)).unwrap().map(|v| (v.to_identity(), v.to_source(), v.to_kind()));
        let r = right.get(&p(path)).unwrap().map(|v| (v.to_identity(), v.to_source(), v.to_kind()));
        assert_eq!(l, r);
    }
    assert!(left.get(&p("/A/C")).unwrap().is_some());

    let again = VirtualPath::from(p("/A/C"), None, Kind::Directory).unwrap();
    assert!(left.attach_virtual(&again).is_err());
    assert!(right.attach(&p("/A/C"), None, Kind::Directory).is_err());
}
