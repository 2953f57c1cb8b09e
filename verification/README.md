# es_client

A client for Elasticsearch that keeps connection profiles with encrypted
credentials, manages indices, loads sample data, and copies search results
into a local DuckDB database or into JSON and spreadsheet files.

The library under `src/` is verified with Verus. It decides everything that
does not need a network, a file or a database: profile storage rules,
credential encryption (AES-256-GCM through `ring`, hexadecimal text through
`hex`), request URLs, headers and bodies, the reading of replies, the SQL
statements for extracted documents and the rows read back, the sample
documents, and the spreadsheet layout.

- `models`, `config`, `crypto`, `hexcodec`, `home`, `state`: profiles,
  settings and the encryption of their credentials.
- `es`, `encoding`, `json`: requests to a cluster and their replies.
- `duck`, `naming`: the local database.
- `export`: the export tool.
- `cli`, `sample`: the decisions of the command line and of the sample
  index loader.
- `text`, `chars`: text helpers.

`app/` holds the programs around the library: the `es-client` command line,
the `es-export` tool and the desktop command handlers. They read and write
the files, send the HTTP requests and run the SQL statements.
