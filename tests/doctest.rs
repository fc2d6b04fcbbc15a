use deno_ast_core::doctest::JSDocExample;

  #[test]
  fn test_extract_jsdoc() {
    let jsdoc_str = r#"
@param list - LinkedList<T>
@example <caption>Linkedlists.compareWith</caption>
```ts
import { LinkedList } from './js_test/linkedlist.ts'
const testArr = [1, 2, 3, 4, 5, 6, 78, 9, 0, 65];
const firstList = new LinkedList<number>();
const secondList = new LinkedList<number>();
for (let data of testArr) {
  firstList.insertNode(data);
  secondList.insertNode(data);
}
const result = firstList.compareWith(secondList);
assert(result);
```"#;
    let res =
      JSDocExample::from_str(jsdoc_str.to_string(), "file".to_string(), 6);
    assert!(res.len() == 1);
    let doctest = res[0].parse();
    assert!(doctest.is_some());
    let doctest = doctest.unwrap();
    assert_eq!(1, doctest.imports.len());
    assert!(!doctest.is_async);
    assert!(!doctest.ignore);
    assert_eq!(doctest.caption, Some("Linkedlists.compareWith".to_string()));
    assert_eq!(
      doctest.source_code,
      vec![
        "  const testArr = [1, 2, 3, 4, 5, 6, 78, 9, 0, 65];",
        "  const firstList = new LinkedList<number>();",
        "  const secondList = new LinkedList<number>();",
        "  for (let data of testArr) {",
        "  firstList.insertNode(data);",
        "  secondList.insertNode(data);",
        "  }",
        "  const result = firstList.compareWith(secondList);",
        "  assert(result);"
      ]
      .join("\n")
    )
  }

  #[test]
  fn test_multiple_examples() {
    let jsdoc_str = r#"
@param fn - (data: T, index: number) => T
@example <caption>Linkedlist.map</caption>
```ts
import { LinkedList } from './js_test/linkedlist.ts';
import { LinkedList1 } from './js_test/linkedlist1.ts';
const testArr = [1, 2, 3, 4, 5, 6, 78, 9, 0, 65];
const testList = new LinkedList<number>();
for (let data of testArr) {
 testList.insertNode(data);
}
testList.map((c: number) => c ** 2);
testList.forEach((c: number, i: number) => assertEquals(c, testArr[i] ** 2));
```
@example <caption>Linkedlist.map 2</caption>
```ignore
import { LinkedList } from './js_test/linkedlist.ts'
const testArr = [1, 2, 3, 4, 5];
const testList = new LinkedList<number>();
for (let data of testArr) {
 testList.insertNode(data);
}
testList.map((c: number) => c ** 2);
testList.forEach((c: number, i: number) => assertEquals(c, testArr[i] ** 2));
```"#;
    let res =
      JSDocExample::from_str(jsdoc_str.to_string(), "file".to_string(), 6);
    assert!(res.len() == 2);
    let doctest = res[0].parse();
    assert!(doctest.is_some());
    let doctest = doctest.unwrap();
    assert_eq!(2, doctest.imports.len());
    assert!(!doctest.is_async);
    assert!(!doctest.ignore);
    assert_eq!(doctest.caption, Some("Linkedlist.map".to_string()));
    assert_eq!(
      doctest.source_code,
      vec![
        "  const testArr = [1, 2, 3, 4, 5, 6, 78, 9, 0, 65];",
        "  const testList = new LinkedList<number>();",
        "  for (let data of testArr) {",
        "  testList.insertNode(data);",
        "  }",
        "  testList.map((c: number) => c ** 2);",
        "  testList.forEach((c: number, i: number) => assertEquals(c, testArr[i] ** 2));",
  ].join("\n"));

    let doctest = res[1].parse();
    assert!(doctest.is_some());
    let doctest = doctest.unwrap();
    assert!(!doctest.is_async);
    assert!(doctest.ignore);
    assert_eq!(doctest.caption, Some("Linkedlist.map 2".to_string()));
    assert_eq!(
      doctest.source_code,
      vec![
        "  const testArr = [1, 2, 3, 4, 5];",
        "  const testList = new LinkedList<number>();",
        "  for (let data of testArr) {",
        "  testList.insertNode(data);",
        "  }",
        "  testList.map((c: number) => c ** 2);",
        "  testList.forEach((c: number, i: number) => assertEquals(c, testArr[i] ** 2));"
      ]
      .join("\n")
    );
  }

  #[test]
  fn test_code_without_jsdoc() {
    let jsdoc_str = r#"class Node<T> {
      constructor(public data: T, public next?: Node<T>) {}

      swap(other: Node<T>) {
        let temp = this.data;
        this.data = other.data;
        other.data = temp;
      }
    }"#;
    let res =
      JSDocExample::from_str(jsdoc_str.to_string(), "filename".to_string(), 5);
    assert!(res.is_empty());
  }

  #[test]
  fn test_async_detection() {
    let example = r#"@example
```ts
const response = await fetch("https://deno.land");
const body = await response.text();
assert(body.length > 0);
```"#;

    let res = JSDocExample {
      source_code: example.to_string(),
      filename: "filename".to_string(),
      line_number: 1,
    };
    let res = res.parse();
    assert!(res.is_some());
    let doctest = res.unwrap();
    assert!(doctest.is_async);
    assert!(!doctest.ignore);
    assert!(doctest.caption.is_none());
    assert_eq!(
      doctest.source_code,
      vec![
        "  const response = await fetch(\"https://deno.land\");",
        "  const body = await response.text();",
        "  assert(body.length > 0);",
      ]
      .join("\n")
    );
  }

  #[test]
  fn test_text_tag() {
    let example = r#"@example
```text
const response = await fetch("https://deno.land");
const body = await response.text();
assert(body.length > 0);
```"#;

    let res = JSDocExample {
      source_code: example.to_string(),
      filename: "file".to_string(),
      line_number: 0,
    };
    assert!(res.parse().is_none());
  }

  #[test]
  fn test_jump_example_without_backticks() {
    let jsdoc_str = r#"@example
const response = await fetch("https://deno.land");
const body = await response.text();
assert(body.length > 0);
"#;
    let doctest =
      JSDocExample::from_str(jsdoc_str.to_string(), "filename".to_string(), 0);
    assert!(doctest.is_empty());
  }
