# yosegaki

A shared message board ("yosegaki"): participants pick a theme and write on
one shared canvas per theme, with a pen or by placing text, and save their
additions. The site sits behind HTTP Basic authentication and limits the size
of a saved picture and the number of additions per theme.

- `src/` is the verified library (Verus): the access check, the rules for
  accepting an addition, theme titles and selection, identifier text, the
  state machines of the drawing surfaces, line wrapping, the layout of the
  downloadable board picture, and cropping a canvas to its writing.
- `app/` is the Leptos / Cloudflare Workers application around it: server
  functions, storage, the components and the browser drawing calls.
- `tests/` runs the library on concrete values.
