use s5ci::html_gen::{page_name, root_pages, RootPage};
use s5ci::lists::reversed;

fn spans(total: usize) -> Vec<(usize, usize, usize)> {
    root_pages(total).iter().map(|p| (p.number, p.start, p.end)).collect()
}

#[test]
fn few_jobs_fit_on_the_first_page() {
    assert_eq!(spans(0), vec![(0, 0, 0)]);
    assert_eq!(spans(1), vec![(0, 0, 1)]);
    assert_eq!(spans(20), vec![(0, 0, 20)]);
    assert_eq!(spans(39), vec![(0, 0, 39)]);
    assert_eq!(
        root_pages(39),
        vec![RootPage { number: 0, start: 0, end: 39, prev_page: None, next_page: None }]
    );
}

#[test]
fn many_jobs_are_cut_into_pages_of_twenty() {
    assert_eq!(spans(40), vec![(0, 0, 20), (1, 20, 40)]);
    assert_eq!(spans(41), vec![(0, 0, 21), (1, 21, 41)]);
    assert_eq!(spans(59), vec![(0, 0, 39), (1, 39, 59)]);
    assert_eq!(spans(60), vec![(0, 0, 20), (2, 20, 40), (1, 40, 60)]);
    assert_eq!(spans(87), vec![(0, 0, 27), (3, 27, 47), (2, 47, 67), (1, 67, 87)]);
    assert_eq!(
        root_pages(60),
        vec![
            RootPage { number: 0, start: 0, end: 20, prev_page: Some(2), next_page: None },
            RootPage { number: 2, start: 20, end: 40, prev_page: Some(1), next_page: Some(0) },
            RootPage { number: 1, start: 40, end: 60, prev_page: None, next_page: Some(2) },
        ]
    );
}

#[test]
fn pages_cover_every_job_once() {
    for total in 0..500usize {
        let pages = root_pages(total);
        let mut next = 0;
        for page in &pages {
            assert_eq!(page.start, next);
            assert!(page.end >= page.start);
            next = page.end;
        }
        assert_eq!(next, total);
        assert_eq!(pages[0].number, 0);
        for page in &pages[1..] {
            assert_eq!(page.end - page.start, 20);
        }
    }
}

#[test]
fn pages_are_named_by_their_number() {
    assert_eq!(page_name(0), "index.html");
    assert_eq!(page_name(1), "index_1.html");
    assert_eq!(page_name(12), "index_12.html");
}

#[test]
fn reversed_turns_a_list_around() {
    assert_eq!(reversed(vec![1, 2, 3]), vec![3, 2, 1]);
    assert_eq!(reversed(Vec::<u8>::new()), Vec::<u8>::new());
}
